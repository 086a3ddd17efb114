//! Ingress server options owned by the transport layer.

use vstd::prelude::*;

verus! {

#[derive(Debug, Clone)]
pub struct GrpcTlsOptions {
    pub cert_path: String,
    pub key_path: String,
    pub client_ca_path: Option<String>,
    pub client_auth_optional: bool,
}

#[derive(Debug, Clone)]
pub struct GrpcServeOptions {
    pub request_timeout_secs: u64,
    pub concurrency_limit_per_connection: usize,
    pub max_decoding_message_bytes: usize,
    pub max_encoding_message_bytes: usize,
    /// How long a request may wait for room in the engine queue.
    pub command_enqueue_timeout_ms: u64,
    pub tls: Option<GrpcTlsOptions>,
}

/// Why serve options are refused.
#[derive(Debug, Clone, Copy, PartialEq, Eq, Structural)]
pub enum ServeOptionsError {
    RequestTimeoutZero,
    ConcurrencyLimitZero,
    MessageSizeZero,
    EnqueueTimeoutZero,
    ClientCaPathEmpty,
}

impl ServeOptionsError {
    /// The message that explains the refusal.
    pub fn message(&self) -> (m: &'static str)
        ensures
            m@ == match *self {
                ServeOptionsError::RequestTimeoutZero => "grpc.request_timeout_secs must be greater than 0"@,
                ServeOptionsError::ConcurrencyLimitZero => "grpc.concurrency_limit_per_connection must be greater than 0"@,
                ServeOptionsError::MessageSizeZero => "grpc max_decoding_message_bytes and max_encoding_message_bytes must be greater than 0"@,
                ServeOptionsError::EnqueueTimeoutZero => "grpc.command_enqueue_timeout_ms must be greater than 0"@,
                ServeOptionsError::ClientCaPathEmpty => "grpc TLS client_ca_path must not be empty when set"@,
            },
    {
        match self {
            ServeOptionsError::RequestTimeoutZero => "grpc.request_timeout_secs must be greater than 0",
            ServeOptionsError::ConcurrencyLimitZero => "grpc.concurrency_limit_per_connection must be greater than 0",
            ServeOptionsError::MessageSizeZero => "grpc max_decoding_message_bytes and max_encoding_message_bytes must be greater than 0",
            ServeOptionsError::EnqueueTimeoutZero => "grpc.command_enqueue_timeout_ms must be greater than 0",
            ServeOptionsError::ClientCaPathEmpty => "grpc TLS client_ca_path must not be empty when set",
        }
    }
}

/// The verdict on serve options: the first failed check, in the order
/// listed, or `Ok`.
pub open spec fn options_verdict(o: GrpcServeOptions) -> Result<(), ServeOptionsError> {
    if o.request_timeout_secs == 0 {
        Err(ServeOptionsError::RequestTimeoutZero)
    } else if o.concurrency_limit_per_connection == 0 {
        Err(ServeOptionsError::ConcurrencyLimitZero)
    } else if o.max_decoding_message_bytes == 0 || o.max_encoding_message_bytes == 0 {
        Err(ServeOptionsError::MessageSizeZero)
    } else if o.command_enqueue_timeout_ms == 0 {
        Err(ServeOptionsError::EnqueueTimeoutZero)
    } else if o.tls matches Some(tls) && tls.client_ca_path matches Some(ca) && ca@.len() == 0 {
        Err(ServeOptionsError::ClientCaPathEmpty)
    } else {
        Ok(())
    }
}

impl GrpcServeOptions {
    /// Refuses limits of zero and a client CA path given but empty.
    pub fn validate(&self) -> (r: Result<(), ServeOptionsError>)
        ensures
            r == options_verdict(*self),
    {
        if self.request_timeout_secs == 0 {
            return Err(ServeOptionsError::RequestTimeoutZero);
        }
        if self.concurrency_limit_per_connection == 0 {
            return Err(ServeOptionsError::ConcurrencyLimitZero);
        }
        if self.max_decoding_message_bytes == 0 || self.max_encoding_message_bytes == 0 {
            return Err(ServeOptionsError::MessageSizeZero);
        }
        if self.command_enqueue_timeout_ms == 0 {
            return Err(ServeOptionsError::EnqueueTimeoutZero);
        }
        if let Some(tls) = &self.tls {
            if let Some(ca) = &tls.client_ca_path {
                if ca.as_str().is_empty() {
                    return Err(ServeOptionsError::ClientCaPathEmpty);
                }
            }
        }
        Ok(())
    }
}

} // verus!

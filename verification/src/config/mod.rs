pub mod grpc_bridge;
pub mod types;

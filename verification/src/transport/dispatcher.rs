use vstd::prelude::*;

verus! {

/// Why a validated command could not be handed to the engine.
#[derive(Debug, Clone, Copy, PartialEq, Eq, Structural)]
pub enum DispatchError {
    /// The engine's command channel is closed.
    ChannelClosed,
    /// The engine's command queue stayed full for the whole enqueue timeout.
    EnqueueTimeout,
}

impl DispatchError {
    /// The message that explains the failure.
    pub fn message(&self) -> (m: &'static str)
        ensures
            m@ == match *self {
                DispatchError::ChannelClosed => "engine command channel closed"@,
                DispatchError::EnqueueTimeout => "engine command queue stayed full until the enqueue timeout"@,
            },
    {
        match self {
            DispatchError::ChannelClosed => "engine command channel closed",
            DispatchError::EnqueueTimeout => "engine command queue stayed full until the enqueue timeout",
        }
    }
}

} // verus!

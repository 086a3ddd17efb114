use vstd::prelude::*;

verus! {

/// The message buses events can be published to.
#[derive(Debug, Clone, Copy, PartialEq, Eq, Structural)]
pub enum EventBusKind {
    Nats,
    Kafka,
}

/// The bus a configured bus type names: `nats` or `kafka`; any other name
/// is unsupported.
pub fn event_bus_kind(kind: &String) -> (r: Option<EventBusKind>)
    ensures
        kind@ == "nats"@ ==> r == Some(EventBusKind::Nats),
        kind@ != "nats"@ && kind@ == "kafka"@ ==> r == Some(EventBusKind::Kafka),
        kind@ != "nats"@ && kind@ != "kafka"@ ==> r is None,
{
    let nats = "nats".to_owned();
    let kafka = "kafka".to_owned();
    if *kind == nats {
        Some(EventBusKind::Nats)
    } else if *kind == kafka {
        Some(EventBusKind::Kafka)
    } else {
        None
    }
}

} // verus!

//! The heartbeat a leaf service sends, and the events the registry publishes
//! about it.

use vstd::prelude::*;

verus! {

/// The transport a leaf service speaks.
#[derive(Clone, Copy, Debug, PartialEq, Eq, Structural)]
pub enum TransportType {
    Sse,
    Streamable,
}

/// The socket address a leaf reports for itself. The registry carries it
/// through unread.
#[derive(Clone, Copy, Debug, PartialEq, Eq)]
pub enum NodeAddr {
    V4 { octets: [u8; 4], port: u16 },
    V6 { segments: [u16; 8], port: u16, flowinfo: u32, scope_id: u32 },
}

/// What a leaf service says of itself, both to register and to stay alive.
#[derive(Debug, PartialEq, Eq)]
pub struct MeshHeartbeat {
    pub service_name: String,
    pub transport: TransportType,
    pub port: u16,
    pub active_sessions: usize,
    pub pid: Option<u32>,
    pub addr: Option<NodeAddr>,
    pub sampling_supported: bool,
    /// Set by the registry; what a sender puts here is never believed.
    pub is_blessed: bool,
}

/// A heartbeat as a mathematical value.
pub struct HeartbeatView {
    pub service_name: Seq<char>,
    pub transport: TransportType,
    pub port: u16,
    pub active_sessions: usize,
    pub pid: Option<u32>,
    pub addr: Option<NodeAddr>,
    pub sampling_supported: bool,
    pub is_blessed: bool,
}

impl HeartbeatView {
    /// The same heartbeat with the blessing replaced.
    pub open spec fn with_blessing(self, blessed: bool) -> HeartbeatView {
        HeartbeatView { is_blessed: blessed, ..self }
    }
}

impl View for MeshHeartbeat {
    type V = HeartbeatView;

    open spec fn view(&self) -> HeartbeatView {
        HeartbeatView {
            service_name: self.service_name@,
            transport: self.transport,
            port: self.port,
            active_sessions: self.active_sessions,
            pid: self.pid,
            addr: self.addr,
            sampling_supported: self.sampling_supported,
            is_blessed: self.is_blessed,
        }
    }
}

impl Clone for MeshHeartbeat {
    fn clone(&self) -> (copy: Self)
        ensures
            copy == *self,
    {
        MeshHeartbeat {
            service_name: self.service_name.clone(),
            transport: self.transport,
            port: self.port,
            active_sessions: self.active_sessions,
            pid: self.pid,
            addr: self.addr,
            sampling_supported: self.sampling_supported,
            is_blessed: self.is_blessed,
        }
    }
}

impl MeshHeartbeat {
    /// This heartbeat with the blessing the registry decided on.
    pub fn with_blessing(self, blessed: bool) -> (marked: MeshHeartbeat)
        ensures
            marked@ == self@.with_blessing(blessed),
    {
        MeshHeartbeat { is_blessed: blessed, ..self }
    }
}

/// What the registry tells its subscribers.
#[derive(Debug, PartialEq, Eq)]
pub enum MeshEvent {
    NodeUpdated(MeshHeartbeat),
    NodeRemoved(String),
}

/// An event as a mathematical value.
pub enum EventView {
    NodeUpdated(HeartbeatView),
    NodeRemoved(Seq<char>),
}

impl EventView {
    /// The service the event is about.
    pub open spec fn service(self) -> Seq<char> {
        match self {
            EventView::NodeUpdated(hb) => hb.service_name,
            EventView::NodeRemoved(name) => name,
        }
    }
}

impl View for MeshEvent {
    type V = EventView;

    open spec fn view(&self) -> EventView {
        match self {
            MeshEvent::NodeUpdated(hb) => EventView::NodeUpdated(hb@),
            MeshEvent::NodeRemoved(name) => EventView::NodeRemoved(name@),
        }
    }
}

impl Clone for MeshEvent {
    fn clone(&self) -> (copy: Self)
        ensures
            copy == *self,
    {
        match self {
            MeshEvent::NodeUpdated(hb) => MeshEvent::NodeUpdated(hb.clone()),
            MeshEvent::NodeRemoved(name) => MeshEvent::NodeRemoved(name.clone()),
        }
    }
}

} // verus!

//! The message shapes carried by one connection.
use vstd::prelude::*;

verus! {

/// A request from the manager process.
#[derive(Clone, Copy, Debug, PartialEq, Eq, Structural)]
pub enum ManagerMsg {
    Connect,
}

/// An unsolicited message from the worker process.
#[derive(Clone, Debug, PartialEq, Eq)]
pub enum Callback {
    /// Echo of the connection secret, sent once during the handshake.
    Cookie(String),
    DisconnectedTokenExpired,
    /// The tunnel disconnected and the worker should be joined gracefully.
    OnDisconnect,
    OnUpdateResources(Vec<String>),
    TunnelReady,
}

/// A message from the worker process.
#[derive(Clone, Debug, PartialEq, Eq)]
pub enum WorkerMsg {
    Callback(Callback),
    /// Names the manager request being answered.
    Response(ManagerMsg),
}

/// What the manager side actually puts on the wire: the handshake secret,
/// a user request, or the request to shut down.
#[derive(Clone, Debug, PartialEq, Eq)]
pub enum ManagerMsgInternal {
    Cookie(String),
    User(ManagerMsg),
    Shutdown,
}

/// Mathematical model of a [`Callback`]: strings as character sequences.
pub enum CallbackV {
    Cookie(Seq<char>),
    DisconnectedTokenExpired,
    OnDisconnect,
    OnUpdateResources(Seq<Seq<char>>),
    TunnelReady,
}

/// Mathematical model of a [`WorkerMsg`].
pub enum WorkerMsgV {
    Callback(CallbackV),
    Response(ManagerMsg),
}

/// Mathematical model of a [`ManagerMsgInternal`].
pub enum ManagerMsgInternalV {
    Cookie(Seq<char>),
    User(ManagerMsg),
    Shutdown,
}

/// The views of a list of strings.
pub open spec fn strings_view(v: Seq<String>) -> Seq<Seq<char>> {
    v.map_values(|s: String| s@)
}

impl View for Callback {
    type V = CallbackV;

    open spec fn view(&self) -> CallbackV {
        match self {
            Callback::Cookie(s) => CallbackV::Cookie(s@),
            Callback::DisconnectedTokenExpired => CallbackV::DisconnectedTokenExpired,
            Callback::OnDisconnect => CallbackV::OnDisconnect,
            Callback::OnUpdateResources(v) => CallbackV::OnUpdateResources(strings_view(v@)),
            Callback::TunnelReady => CallbackV::TunnelReady,
        }
    }
}

impl View for WorkerMsg {
    type V = WorkerMsgV;

    open spec fn view(&self) -> WorkerMsgV {
        match self {
            WorkerMsg::Callback(c) => WorkerMsgV::Callback(c@),
            WorkerMsg::Response(m) => WorkerMsgV::Response(*m),
        }
    }
}

impl View for ManagerMsgInternal {
    type V = ManagerMsgInternalV;

    open spec fn view(&self) -> ManagerMsgInternalV {
        match self {
            ManagerMsgInternal::Cookie(s) => ManagerMsgInternalV::Cookie(s@),
            ManagerMsgInternal::User(m) => ManagerMsgInternalV::User(*m),
            ManagerMsgInternal::Shutdown => ManagerMsgInternalV::Shutdown,
        }
    }
}

} // verus!

//! The secret-based handshake that authenticates the worker before any of its
//! messages is trusted.
//!
//! The manager offers the connection's secret over the established stream; the
//! worker's first message must echo it exactly.
use vstd::prelude::*;

use crate::messages::{Callback, CallbackV, ManagerMsgInternal, ManagerMsgInternalV, WorkerMsg, WorkerMsgV};

verus! {

/// Why a handshake did not complete. It never tells a rejected peer why.
#[derive(Clone, Copy, Debug, PartialEq, Eq, Structural)]
pub enum HandshakeError {
    /// The first message from the worker was not the echo of the secret.
    Rejected,
    /// The worker got something other than a secret where one was due.
    UnexpectedMessage,
}

/// The manager accepts `reply` as proof that the peer knows `cookie`.
pub open spec fn accepts(cookie: Seq<char>, reply: WorkerMsgV) -> bool {
    reply == WorkerMsgV::Callback(CallbackV::Cookie(cookie))
}

/// What a worker answers to the manager's opening message.
pub open spec fn spec_client_reply(offer: ManagerMsgInternalV) -> Option<WorkerMsgV> {
    match offer {
        ManagerMsgInternalV::Cookie(c) => Some(WorkerMsgV::Callback(CallbackV::Cookie(c))),
        _ => None,
    }
}

/// The manager's opening message: the secret itself.
pub fn cookie_offer(cookie: &String) -> (r: ManagerMsgInternal)
    ensures
        r@ == ManagerMsgInternalV::Cookie(cookie@),
{
    ManagerMsgInternal::Cookie(cookie.clone())
}

/// Checks the worker's first message against the secret.
pub fn verify_reply(cookie: &String, reply: &WorkerMsg) -> (r: Result<(), HandshakeError>)
    ensures
        r is Ok <==> accepts(cookie@, reply@),
        r is Err ==> r == Err::<(), HandshakeError>(HandshakeError::Rejected),
{
    match reply {
        WorkerMsg::Callback(Callback::Cookie(echo)) => {
            if echo.eq(cookie) {
                Ok(())
            } else {
                Err(HandshakeError::Rejected)
            }
        },
        _ => Err(HandshakeError::Rejected),
    }
}

/// The worker's answer to the opening message: the secret, echoed.
pub fn client_reply(offer: &ManagerMsgInternal) -> (r: Result<WorkerMsg, HandshakeError>)
    ensures
        match r {
            Ok(w) => spec_client_reply(offer@) == Some(w@),
            Err(e) => spec_client_reply(offer@) is None && e == HandshakeError::UnexpectedMessage,
        },
{
    match offer {
        ManagerMsgInternal::Cookie(c) => Ok(WorkerMsg::Callback(Callback::Cookie(c.clone()))),
        _ => Err(HandshakeError::UnexpectedMessage),
    }
}

/// For every secret, a worker that received the manager's offer is accepted;
/// and no reply is accepted under two different secrets, so a peer that never
/// received the secret is accepted only by guessing it.
pub proof fn lemma_handshake_authenticates(cookie: Seq<char>, other: Seq<char>, reply: WorkerMsgV)
    ensures
        spec_client_reply(ManagerMsgInternalV::Cookie(cookie)) is Some,
        accepts(cookie, spec_client_reply(ManagerMsgInternalV::Cookie(cookie))->0),
        accepts(cookie, reply) && accepts(other, reply) ==> cookie == other,
{
    if accepts(cookie, reply) && accepts(other, reply) {
        assert(reply->Callback_0->Cookie_0 == cookie);
    }
}

} // verus!

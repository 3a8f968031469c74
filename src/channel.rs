//! One connection between a manager and a worker: its lifecycle and the
//! framed, typed messages it carries in each direction.
//!
//! The channel holds no OS object. The caller performs the reads and writes:
//! it hands in the bytes read and writes out the frames it is handed.
use vstd::prelude::*;

use crate::codec::{
    decode_internal, decode_worker, enc_internal, enc_worker, encode_internal, encode_worker,
    internal_ok, worker_ok, MAX_PAYLOAD,
};
use crate::codec::{lemma_internal_encoding_injective, lemma_worker_encoding_injective};
use crate::frame::{
    complete, first_payload, frame, frame_of, lemma_frame_reassembled, oversized, FrameError,
    FrameReader,
};
use crate::handshake::{accepts, client_reply, spec_client_reply, verify_reply, HandshakeError};
use crate::messages::{ManagerMsgInternal, ManagerMsgInternalV, WorkerMsg, WorkerMsgV};

verus! {

/// Lifecycle of a connection.
#[derive(Clone, Copy, Debug, PartialEq, Eq, Structural)]
pub enum ConnState {
    Listening,
    Handshaking,
    Open,
    Closing,
    Closed,
}

/// Why a message was not sent.
#[derive(Clone, Copy, Debug, PartialEq, Eq, Structural)]
pub enum SendError {
    /// The connection is not established, or is closing or closed.
    NotOpen,
    /// The encoded message exceeds the largest frame.
    TooLarge,
}

/// Why no message was received.
#[derive(Clone, Copy, Debug, PartialEq, Eq, Structural)]
pub enum RecvError {
    /// The connection is not established, or is closing or closed.
    NotOpen,
    /// A frame header announces more than the largest frame.
    TooLarge,
    /// A whole frame arrived that holds no message of the expected shape.
    Malformed,
    /// The peer closed the stream between frames.
    EndOfStream,
    /// The peer closed the stream in the middle of a frame.
    Truncated,
}

/// Frames may be sent and received in this state.
pub open spec fn can_transfer(s: ConnState) -> bool {
    s == ConnState::Handshaking || s == ConnState::Open
}

/// The state after a close is requested, and whether this request starts it.
pub open spec fn spec_begin_close(s: ConnState) -> (ConnState, bool) {
    if s == ConnState::Closing || s == ConnState::Closed {
        (s, false)
    } else {
        (ConnState::Closing, true)
    }
}

/// A connection: its state and the bytes received but not yet taken as frames.
pub struct Channel {
    state: ConnState,
    reader: FrameReader,
}

impl View for Channel {
    type V = (ConnState, Seq<u8>);

    closed spec fn view(&self) -> (ConnState, Seq<u8>) {
        (self.state, self.reader@)
    }
}

impl Channel {
    /// The manager's side, bound and waiting for its one peer.
    pub fn listening() -> (r: Channel)
        ensures
            r@ == (ConnState::Listening, Seq::<u8>::empty()),
    {
        Channel { state: ConnState::Listening, reader: FrameReader::new() }
    }

    /// The worker's side, just connected: it must first answer the handshake
    /// when `secure`.
    pub fn connected(secure: bool) -> (r: Channel)
        ensures
            r@ == (if secure {
                ConnState::Handshaking
            } else {
                ConnState::Open
            }, Seq::<u8>::empty()),
    {
        Channel {
            state: if secure {
                ConnState::Handshaking
            } else {
                ConnState::Open
            },
            reader: FrameReader::new(),
        }
    }

    pub fn state(&self) -> (r: ConnState)
        ensures
            r == self@.0,
    {
        self.state
    }

    /// The manager's side accepted its peer.
    pub fn on_accepted(&mut self, secure: bool) -> (r: bool)
        ensures
            r == (old(self)@.0 == ConnState::Listening),
            final(self)@.1 == old(self)@.1,
            r ==> final(self)@.0 == if secure {
                ConnState::Handshaking
            } else {
                ConnState::Open
            },
            !r ==> final(self)@ == old(self)@,
    {
        if self.state == ConnState::Listening {
            self.state = if secure {
                ConnState::Handshaking
            } else {
                ConnState::Open
            };
            true
        } else {
            false
        }
    }

    /// The manager's side checks the worker's first message against the
    /// secret: the connection opens on its exact echo, and closes otherwise.
    pub fn authenticate(&mut self, cookie: &String, reply: &WorkerMsg) -> (r: Result<(), HandshakeError>)
        ensures
            r is Ok <==> (old(self)@.0 == ConnState::Handshaking && accepts(cookie@, reply@)),
            r is Ok ==> final(self)@ == (ConnState::Open, old(self)@.1),
            r is Err ==> final(self)@ == (ConnState::Closed, old(self)@.1) && r == Err::<
                (),
                HandshakeError,
            >(HandshakeError::Rejected),
    {
        if self.state != ConnState::Handshaking {
            self.state = ConnState::Closed;
            return Err(HandshakeError::Rejected);
        }
        match verify_reply(cookie, reply) {
            Ok(()) => {
                self.state = ConnState::Open;
                Ok(())
            },
            Err(e) => {
                self.state = ConnState::Closed;
                Err(e)
            },
        }
    }

    /// The worker's side answers the manager's opening message: with the
    /// echoed secret, after which the connection is open; a connection whose
    /// opening message is not a secret closes.
    pub fn answer_offer(&mut self, offer: &ManagerMsgInternal) -> (r: Result<WorkerMsg, HandshakeError>)
        ensures
            old(self)@.0 == ConnState::Handshaking ==> match r {
                Ok(w) => spec_client_reply(offer@) == Some(w@) && final(self)@ == (
                    ConnState::Open,
                    old(self)@.1,
                ),
                Err(e) => spec_client_reply(offer@) is None && e == HandshakeError::UnexpectedMessage
                    && final(self)@ == (ConnState::Closed, old(self)@.1),
            },
            old(self)@.0 != ConnState::Handshaking ==> r == Err::<WorkerMsg, HandshakeError>(
                HandshakeError::UnexpectedMessage,
            ) && final(self)@ == (ConnState::Closed, old(self)@.1),
    {
        if self.state != ConnState::Handshaking {
            self.state = ConnState::Closed;
            return Err(HandshakeError::UnexpectedMessage);
        }
        match client_reply(offer) {
            Ok(w) => {
                self.state = ConnState::Open;
                Ok(w)
            },
            Err(e) => {
                self.state = ConnState::Closed;
                Err(e)
            },
        }
    }

    /// Starts closing; `true` only for the request that actually starts it.
    pub fn begin_close(&mut self) -> (r: bool)
        ensures
            (final(self)@.0, r) == spec_begin_close(old(self)@.0),
            final(self)@.1 == old(self)@.1,
    {
        if self.state == ConnState::Closing || self.state == ConnState::Closed {
            false
        } else {
            self.state = ConnState::Closing;
            true
        }
    }

    /// The OS handle was released.
    pub fn finish_close(&mut self)
        ensures
            final(self)@ == (ConnState::Closed, old(self)@.1),
    {
        self.state = ConnState::Closed;
    }

    /// An I/O failure invalidated the connection.
    pub fn fail(&mut self)
        ensures
            final(self)@ == (ConnState::Closed, old(self)@.1),
    {
        self.state = ConnState::Closed;
    }

    /// Bytes read from the stream.
    pub fn receive(&mut self, bytes: &[u8])
        ensures
            final(self)@ == (old(self)@.0, old(self)@.1 + bytes@),
    {
        self.reader.push(bytes);
    }

    /// The stream ended: the peer closed it, or its process exited.
    pub fn end_of_stream(&mut self) -> (r: RecvError)
        ensures
            final(self)@ == (ConnState::Closed, old(self)@.1),
            r == if old(self)@.1.len() == 0 {
                RecvError::EndOfStream
            } else {
                RecvError::Truncated
            },
    {
        self.state = ConnState::Closed;
        if self.reader.is_empty() {
            RecvError::EndOfStream
        } else {
            RecvError::Truncated
        }
    }

    /// The frame that carries `payload`.
    pub fn send_payload(&self, payload: &Vec<u8>) -> (r: Result<Vec<u8>, SendError>)
        ensures
            match r {
                Ok(f) => can_transfer(self@.0) && payload@.len() <= MAX_PAYLOAD && f@ == frame_of(
                    payload@,
                ),
                Err(SendError::NotOpen) => !can_transfer(self@.0),
                Err(SendError::TooLarge) => can_transfer(self@.0) && payload@.len() > MAX_PAYLOAD,
            },
    {
        if self.state != ConnState::Handshaking && self.state != ConnState::Open {
            return Err(SendError::NotOpen);
        }
        if payload.len() > MAX_PAYLOAD {
            return Err(SendError::TooLarge);
        }
        Ok(frame(payload))
    }

    /// The payload of the next whole frame, or `None` until one has arrived.
    /// A frame header that announces too much closes the connection.
    pub fn next_payload(&mut self) -> (r: Result<Option<Vec<u8>>, RecvError>)
        ensures
            !can_transfer(old(self)@.0) ==> r == Err::<Option<Vec<u8>>, RecvError>(
                RecvError::NotOpen,
            ) && final(self)@ == old(self)@,
            can_transfer(old(self)@.0) ==> match r {
                Ok(Some(f)) => complete(old(self)@.1) && !oversized(old(self)@.1) && f@
                    == first_payload(old(self)@.1) && old(self)@.1 == frame_of(f@) + final(self)@.1
                    && final(self)@.0 == old(self)@.0,
                Ok(None) => final(self)@ == old(self)@ && !complete(old(self)@.1) && !oversized(
                    old(self)@.1,
                ),
                Err(e) => e == RecvError::TooLarge && oversized(old(self)@.1) && final(self)@ == (
                    ConnState::Closed,
                    old(self)@.1,
                ),
            },
    {
        if self.state != ConnState::Handshaking && self.state != ConnState::Open {
            return Err(RecvError::NotOpen);
        }
        match self.reader.take_frame() {
            Ok(f) => Ok(f),
            Err(FrameError::TooLarge) => {
                self.state = ConnState::Closed;
                Err(RecvError::TooLarge)
            },
        }
    }

    /// The frame that carries a manager message.
    pub fn send_internal(&self, m: &ManagerMsgInternal) -> (r: Result<Vec<u8>, SendError>)
        ensures
            match r {
                Ok(f) => can_transfer(self@.0) && f@ == frame_of(enc_internal(m@)),
                Err(SendError::NotOpen) => !can_transfer(self@.0),
                Err(SendError::TooLarge) => can_transfer(self@.0) && enc_internal(m@).len()
                    > MAX_PAYLOAD,
            },
    {
        if self.state != ConnState::Handshaking && self.state != ConnState::Open {
            return Err(SendError::NotOpen);
        }
        match encode_internal(m) {
            Some(payload) => self.send_payload(&payload),
            None => Err(SendError::TooLarge),
        }
    }

    /// The frame that carries a worker message.
    pub fn send_worker(&self, m: &WorkerMsg) -> (r: Result<Vec<u8>, SendError>)
        ensures
            match r {
                Ok(f) => can_transfer(self@.0) && f@ == frame_of(enc_worker(m@)),
                Err(SendError::NotOpen) => !can_transfer(self@.0),
                Err(SendError::TooLarge) => can_transfer(self@.0) && enc_worker(m@).len()
                    > MAX_PAYLOAD,
            },
    {
        if self.state != ConnState::Handshaking && self.state != ConnState::Open {
            return Err(SendError::NotOpen);
        }
        match encode_worker(m) {
            Some(payload) => self.send_payload(&payload),
            None => Err(SendError::TooLarge),
        }
    }

    /// The next worker message, or `None` until a whole frame has arrived.
    /// A frame that holds no worker message closes the connection.
    pub fn next_worker(&mut self) -> (r: Result<Option<WorkerMsg>, RecvError>)
        ensures
            !can_transfer(old(self)@.0) ==> r == Err::<Option<WorkerMsg>, RecvError>(
                RecvError::NotOpen,
            ) && final(self)@ == old(self)@,
            can_transfer(old(self)@.0) ==> match r {
                Ok(Some(m)) => complete(old(self)@.1) && !oversized(old(self)@.1) && enc_worker(m@)
                    == first_payload(old(self)@.1) && worker_ok(m@) && old(self)@.1 == frame_of(
                    enc_worker(m@),
                ) + final(self)@.1 && final(self)@.0 == old(self)@.0,
                Ok(None) => final(self)@ == old(self)@ && !complete(old(self)@.1) && !oversized(
                    old(self)@.1,
                ),
                Err(RecvError::TooLarge) => oversized(old(self)@.1) && final(self)@.0
                    == ConnState::Closed,
                Err(RecvError::Malformed) => complete(old(self)@.1) && !oversized(old(self)@.1)
                    && (forall|w: WorkerMsgV|
                    worker_ok(w) ==> enc_worker(w) != first_payload(old(self)@.1)) && final(self)@.0 == ConnState::Closed,
                Err(_) => false,
            },
    {
        match self.next_payload() {
            Ok(Some(f)) => match decode_worker(f.as_slice()) {
                Some(m) => Ok(Some(m)),
                None => {
                    self.state = ConnState::Closed;
                    Err(RecvError::Malformed)
                },
            },
            Ok(None) => Ok(None),
            Err(e) => Err(e),
        }
    }

    /// The next manager message, or `None` until a whole frame has arrived.
    /// A frame that holds no manager message closes the connection.
    pub fn next_internal(&mut self) -> (r: Result<Option<ManagerMsgInternal>, RecvError>)
        ensures
            !can_transfer(old(self)@.0) ==> r == Err::<Option<ManagerMsgInternal>, RecvError>(
                RecvError::NotOpen,
            ) && final(self)@ == old(self)@,
            can_transfer(old(self)@.0) ==> match r {
                Ok(Some(m)) => complete(old(self)@.1) && !oversized(old(self)@.1) && enc_internal(
                    m@,
                ) == first_payload(old(self)@.1) && internal_ok(m@) && old(self)@.1 == frame_of(
                    enc_internal(m@),
                ) + final(self)@.1 && final(self)@.0 == old(self)@.0,
                Ok(None) => final(self)@ == old(self)@ && !complete(old(self)@.1) && !oversized(
                    old(self)@.1,
                ),
                Err(RecvError::TooLarge) => oversized(old(self)@.1) && final(self)@.0
                    == ConnState::Closed,
                Err(RecvError::Malformed) => complete(old(self)@.1) && !oversized(old(self)@.1)
                    && (forall|m: ManagerMsgInternalV|
                    internal_ok(m) ==> enc_internal(m) != first_payload(old(self)@.1)) && final(self)@.0 == ConnState::Closed,
                Err(_) => false,
            },
    {
        match self.next_payload() {
            Ok(Some(f)) => match decode_internal(f.as_slice()) {
                Some(m) => Ok(Some(m)),
                None => {
                    self.state = ConnState::Closed;
                    Err(RecvError::Malformed)
                },
            },
            Ok(None) => Ok(None),
            Err(e) => Err(e),
        }
    }
}

/// Requesting a close a second time changes nothing and starts nothing.
pub proof fn lemma_close_idempotent(s: ConnState)
    ensures
        spec_begin_close(spec_begin_close(s).0) == (spec_begin_close(s).0, false),
        spec_begin_close(s).0 == ConnState::Closing || spec_begin_close(s).0 == ConnState::Closed,
{
}

/// A manager message framed by one end arrives intact: whatever bytes follow,
/// the receiving end reads back that message and keeps exactly those bytes.
pub proof fn lemma_manager_delivery(
    sent: ManagerMsgInternalV,
    read: ManagerMsgInternalV,
    after_sent: Seq<u8>,
    after_read: Seq<u8>,
)
    requires
        internal_ok(sent),
        internal_ok(read),
        enc_internal(sent).len() <= MAX_PAYLOAD,
        enc_internal(read).len() <= MAX_PAYLOAD,
        frame_of(enc_internal(sent)) + after_sent == frame_of(enc_internal(read)) + after_read,
    ensures
        read == sent,
        after_read == after_sent,
{
    lemma_frame_reassembled(enc_internal(sent), after_sent);
    lemma_frame_reassembled(enc_internal(read), after_read);
    lemma_internal_encoding_injective(sent, read);
}

/// A worker message framed by one end arrives intact: whatever bytes follow,
/// the receiving end reads back that message and keeps exactly those bytes.
pub proof fn lemma_worker_delivery(
    sent: WorkerMsgV,
    read: WorkerMsgV,
    after_sent: Seq<u8>,
    after_read: Seq<u8>,
)
    requires
        worker_ok(sent),
        worker_ok(read),
        enc_worker(sent).len() <= MAX_PAYLOAD,
        enc_worker(read).len() <= MAX_PAYLOAD,
        frame_of(enc_worker(sent)) + after_sent == frame_of(enc_worker(read)) + after_read,
    ensures
        read == sent,
        after_read == after_sent,
{
    lemma_frame_reassembled(enc_worker(sent), after_sent);
    lemma_frame_reassembled(enc_worker(read), after_read);
    lemma_worker_encoding_injective(sent, read);
}

} // verus!

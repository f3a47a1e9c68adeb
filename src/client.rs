//! The decisions of a query client: send over UDP, fall back to TCP when the
//! reply is truncated, and frame TCP exchanges with a length prefix. The
//! caller performs each send and hands back what came in.

use vstd::prelude::*;
use crate::error::Error;
use crate::message::{message_at, message_bytes, parse, writable, Message, MessageView};
use crate::wire::{be16_at, be16_bytes, push_all, push_u16};

verus! {

/// The transport a message goes over.
#[derive(Debug, Copy, Clone, PartialEq, Eq, Structural)]
pub enum Transport {
    Udp,
    Tcp,
}

/// What the caller is to do next.
#[derive(Debug)]
pub enum Step {
    /// Send these bytes over this transport, then hand back the reply.
    Send(Transport, Vec<u8>),
    /// The exchange is over; this is the response.
    Done(Message),
    /// The exchange failed.
    Failed(Error),
}

/// What a step holds, as mathematical values.
pub enum StepView {
    Send(Transport, Seq<u8>),
    Done(MessageView),
    Failed(Error),
}

impl View for Step {
    type V = StepView;

    open spec fn view(&self) -> StepView {
        match self {
            Step::Send(t, b) => StepView::Send(*t, b@),
            Step::Done(m) => StepView::Done(m@),
            Step::Failed(e) => StepView::Failed(*e),
        }
    }
}

/// A message as sent over TCP: its length in two bytes, then the message.
pub open spec fn tcp_frame(payload: Seq<u8>) -> Seq<u8> {
    be16_bytes(payload.len() as u16) + payload
}

/// The first send of a query over the given transport.
pub open spec fn send_on(t: Transport, payload: Seq<u8>) -> StepView {
    match t {
        Transport::Udp => StepView::Send(Transport::Udp, payload),
        Transport::Tcp => if payload.len() <= 65535 {
            StepView::Send(Transport::Tcp, tcp_frame(payload))
        } else {
            StepView::Failed(Error::OutOfRange)
        },
    }
}

/// What follows a UDP reply: a truncated response is dropped and the same
/// payload goes again over TCP; any other response ends the exchange.
pub open spec fn after_udp(payload: Seq<u8>, reply: Seq<u8>) -> StepView {
    match message_at(reply) {
        None => StepView::Failed(Error::FormatError),
        Some(m) => if m.header.truncation {
            send_on(Transport::Tcp, payload)
        } else {
            StepView::Done(m)
        },
    }
}

/// What follows a TCP reply that announced `announced` bytes and delivered
/// `body`: fewer bytes than announced is a transport failure.
pub open spec fn after_tcp(announced: u16, body: Seq<u8>) -> StepView {
    if body.len() != announced as int {
        StepView::Failed(Error::TransportError)
    } else {
        match message_at(body) {
            None => StepView::Failed(Error::FormatError),
            Some(m) => StepView::Done(m),
        }
    }
}

/// One query in flight: the serialised query and the transport that its
/// reply is awaited on.
pub struct QueryClient {
    pub payload: Vec<u8>,
    pub awaiting: Transport,
}

/// Prefixes a message with its length for TCP.
pub fn frame_tcp(payload: &[u8]) -> (r: Vec<u8>)
    requires
        payload@.len() <= 65535,
    ensures
        r@ == tcp_frame(payload@),
{
    let mut out: Vec<u8> = Vec::new();
    push_u16(&mut out, payload.len() as u16);
    push_all(&mut out, payload);
    out
}

/// The length that a TCP reply announces in its first two bytes.
pub fn tcp_length(prefix: [u8; 2]) -> (r: u16)
    ensures
        r == be16_at(prefix@, 0),
{
    crate::wire::read_u16(prefix.as_slice(), 0)
}

impl QueryClient {
    /// Serialises the query and says how to send it: over UDP, or straight
    /// over TCP where `use_tcp` asks for it. A query without a wire form
    /// fails at once with an out-of-range error.
    pub fn start(query: &Message, use_tcp: bool) -> (r: (QueryClient, Step))
        ensures
            r.0.awaiting == if use_tcp {
                Transport::Tcp
            } else {
                Transport::Udp
            },
            writable(query@) ==> r.0.payload@ == message_bytes(query@) && r.1@ == send_on(
                r.0.awaiting,
                r.0.payload@,
            ),
            !writable(query@) ==> r.1@ == StepView::Failed(Error::OutOfRange),
    {
        let awaiting = if use_tcp {
            Transport::Tcp
        } else {
            Transport::Udp
        };
        match query.to_bytes() {
            Err(e) => (QueryClient { payload: Vec::new(), awaiting }, Step::Failed(e)),
            Ok(payload) => {
                let client = QueryClient { payload, awaiting };
                let step = client.send();
                (client, step)
            },
        }
    }

    /// The send for the transport now awaited.
    fn send(&self) -> (r: Step)
        ensures
            r@ == send_on(self.awaiting, self.payload@),
    {
        match self.awaiting {
            Transport::Udp => Step::Send(Transport::Udp, self.payload.clone()),
            Transport::Tcp => {
                if self.payload.len() > 65535 {
                    Step::Failed(Error::OutOfRange)
                } else {
                    Step::Send(Transport::Tcp, frame_tcp(self.payload.as_slice()))
                }
            },
        }
    }

    /// Takes the datagram that answered the UDP send.
    pub fn on_udp_reply(&mut self, reply: &[u8]) -> (r: Step)
        requires
            old(self).awaiting == Transport::Udp,
        ensures
            r@ == after_udp(old(self).payload@, reply@),
            final(self).payload@ == old(self).payload@,
            final(self).awaiting == if message_at(reply@) matches Some(m) && m.header.truncation {
                Transport::Tcp
            } else {
                Transport::Udp
            },
    {
        match parse(reply) {
            Err(e) => Step::Failed(e),
            Ok(m) => {
                if m.header.truncation {
                    self.awaiting = Transport::Tcp;
                    self.send()
                } else {
                    Step::Done(m)
                }
            },
        }
    }

    /// Takes the reply to the TCP send: the length its prefix announced and
    /// the bytes that arrived before the stream ended or timed out.
    pub fn on_tcp_reply(&self, announced: u16, body: &[u8]) -> (r: Step)
        requires
            self.awaiting == Transport::Tcp,
        ensures
            r@ == after_tcp(announced, body@),
    {
        if body.len() != announced as usize {
            return Step::Failed(Error::TransportError);
        }
        match parse(body) {
            Err(e) => Step::Failed(e),
            Ok(m) => Step::Done(m),
        }
    }

    /// Any failure of the socket: the query is abandoned.
    pub fn on_transport_failure(&self) -> (r: Step)
        ensures
            r@ == StepView::Failed(Error::TransportError),
    {
        Step::Failed(Error::TransportError)
    }
}

/// A truncated UDP response leads to a TCP send of the very same query
/// bytes (so the same id), and the exchange then ends with the TCP response
/// rather than the UDP one.
pub proof fn lemma_truncation_falls_back_to_tcp(
    payload: Seq<u8>,
    udp_reply: Seq<u8>,
    tcp_body: Seq<u8>,
)
    requires
        payload.len() <= 65535,
        message_at(udp_reply) matches Some(m) && m.header.truncation,
        tcp_body.len() <= 65535,
        message_at(tcp_body) is Some,
    ensures
        after_udp(payload, udp_reply) == StepView::Send(Transport::Tcp, tcp_frame(payload)),
        tcp_frame(payload).subrange(2, tcp_frame(payload).len() as int) == payload,
        after_tcp(tcp_body.len() as u16, tcp_body) == StepView::Done(
            message_at(tcp_body).unwrap(),
        ),
{
    assert(tcp_frame(payload).subrange(2, tcp_frame(payload).len() as int) =~= payload);
}

/// A TCP reply that delivers fewer bytes than it announced is a transport
/// failure, never a message.
pub proof fn lemma_short_tcp_reply_fails(announced: u16, body: Seq<u8>)
    requires
        body.len() < announced,
    ensures
        after_tcp(announced, body) == StepView::Failed(Error::TransportError),
{
}

} // verus!

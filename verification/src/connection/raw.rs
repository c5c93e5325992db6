use std::collections::VecDeque;
use std::sync::Arc;
use vstd::prelude::*;
use crate::error::{Error, ErrorKind};
use crate::message::codec::{message_len, parse_message, Message, MessageView};
use crate::message::header::{parse_primary, PrimaryHeader, MAX_MESSAGE_SIZE, MIN_MESSAGE_SIZE};
use crate::utils::{append_bytes, lemma_padding_for, padding_for_8_bytes};

verus! {

/// The number of messages that may wait to be sent before senders have to
/// wait for the queue to drain.
pub const MAX_OUT_QUEUE_LEN: usize = 4;

/// A message that waits to be sent, as plain values.
pub struct Outgoing {
    /// The bytes of the message on the wire.
    pub bytes: Seq<u8>,
    /// The file descriptors that travel with the message.
    pub fds: Seq<i32>,
}

/// The message `m` as one that waits to be sent.
pub open spec fn outgoing(m: Arc<Message>) -> Outgoing {
    Outgoing { bytes: m.spec_bytes(), fds: m@.fds }
}

/// What the sending side holds, as plain values.
pub struct OutBoundView {
    /// The number of bytes of the first message that have been written.
    pub pos: nat,
    /// The messages that wait, in the order in which they were enqueued.
    pub msgs: Seq<Outgoing>,
}

impl OutBoundView {
    /// The state after `written` more bytes of the first message have been
    /// written: a message that is written to its end leaves the queue, and
    /// the next one starts at its first byte.
    pub open spec fn after_write(self, written: nat) -> OutBoundView {
        if self.msgs.len() > 0 && self.pos + written == self.msgs[0].bytes.len() {
            OutBoundView { pos: 0, msgs: self.msgs.skip(1) }
        } else {
            OutBoundView { pos: self.pos + written, msgs: self.msgs }
        }
    }

    /// The bytes that are still to be written, in the order in which they
    /// will be: the rest of the first message, then the others.
    pub open spec fn pending_bytes(self) -> Seq<u8>
        decreases self.msgs.len(),
    {
        if self.msgs.len() == 0 {
            Seq::empty()
        } else {
            self.msgs[0].bytes.skip(self.pos as int) + (OutBoundView {
                pos: 0,
                msgs: self.msgs.skip(1),
            }).pending_bytes()
        }
    }
}

/// What is to be written next: the bytes of the first message of the queue
/// from `offset` on.
#[derive(Debug, Clone, Copy, PartialEq, Eq, Structural)]
pub struct Write {
    /// The place in the first message where the bytes to write start.
    pub offset: usize,
    /// Whether the file descriptors of the message go with this write: they
    /// go with the first write of a message and with no other.
    pub attach_fds: bool,
}

/// The sending side of a raw connection: the messages that wait to be sent,
/// and how much of the first of them has been written.
#[derive(Debug)]
pub struct OutBound {
    pos: usize,
    msgs: VecDeque<Arc<Message>>,
}

impl View for OutBound {
    type V = OutBoundView;

    closed spec fn view(&self) -> OutBoundView {
        OutBoundView {
            pos: self.pos as nat,
            msgs: self.msgs@.map_values(|m: Arc<Message>| outgoing(m)),
        }
    }
}

impl OutBound {
    /// No message of the queue is written to its end: such a message has
    /// left the queue. With no message in the queue nothing is written.
    #[verifier::type_invariant]
    spec fn inv(self) -> bool {
        &&& self.msgs@.len() > 0 ==> self.pos < self.msgs@[0].spec_bytes().len()
        &&& self.msgs@.len() == 0 ==> self.pos == 0
    }

    /// The state of every sending side: see the type.
    pub open spec fn wf(view: OutBoundView) -> bool {
        &&& view.msgs.len() > 0 ==> view.pos < view.msgs[0].bytes.len()
        &&& view.msgs.len() == 0 ==> view.pos == 0
    }

    /// A sending side with nothing to send.
    pub fn new() -> (out: Self)
        ensures
            out@.pos == 0,
            out@.msgs.len() == 0,
    {
        OutBound { pos: 0, msgs: VecDeque::new() }
    }

    /// Puts `msg` behind the messages that wait to be sent.
    pub fn enqueue(&mut self, msg: Arc<Message>)
        ensures
            final(self)@.msgs == old(self)@.msgs.push(outgoing(msg)),
            final(self)@.pos == old(self)@.pos,
    {
        proof {
            use_type_invariant(&*self);
        }
        let n = msg.as_bytes().len();
        let ghost before = self@.msgs;
        let mut taken = OutBound::new();
        std::mem::swap(self, &mut taken);
        let OutBound { pos, mut msgs } = taken;
        if msgs.len() > 0 {
            let first = msgs[0].as_bytes().len();
        }
        msgs.push_back(msg);
        *self = OutBound { pos, msgs };
        assert(self@.msgs =~= before.push(outgoing(msg)));
    }

    /// The number of messages that wait to be sent.
    pub fn len(&self) -> (n: usize)
        ensures
            n == self@.msgs.len(),
    {
        self.msgs.len()
    }

    /// Whether the queue is at its high-water mark, so that senders have to
    /// wait for it to drain before they enqueue.
    pub fn is_full(&self) -> (full: bool)
        ensures
            full == (self@.msgs.len() >= MAX_OUT_QUEUE_LEN),
    {
        self.msgs.len() >= MAX_OUT_QUEUE_LEN
    }

    /// The message that is being written, if any.
    pub fn front(&self) -> (msg: Option<&Arc<Message>>)
        ensures
            match msg {
                Some(m) => self@.msgs.len() > 0 && outgoing(*m) == self@.msgs[0],
                None => self@.msgs.len() == 0,
            },
    {
        if self.msgs.len() == 0 {
            None
        } else {
            Some(&self.msgs[0])
        }
    }

    /// What to write next: nothing where the queue is empty, else the bytes
    /// of the first message that are not written yet, which are never none.
    /// The file descriptors go with the first write of a message only.
    pub fn next_write(&self) -> (write: Option<Write>)
        ensures
            Self::wf(self@),
            match write {
                Some(w) => self@.msgs.len() > 0 && w.offset == self@.pos && w.offset
                    < self@.msgs[0].bytes.len() && w.attach_fds == (self@.pos == 0),
                None => self@.msgs.len() == 0,
            },
    {
        proof {
            use_type_invariant(self);
        }
        if self.msgs.len() == 0 {
            None
        } else {
            Some(Write { offset: self.pos, attach_fds: self.pos == 0 })
        }
    }

    /// Takes note that `written` more bytes of the first message have been
    /// written. A message that is written to its end leaves the queue.
    ///
    /// Says whether the queue is empty now, which is when those who wait for
    /// room in it are to be woken. More bytes than the first message has left
    /// cannot have been written: that gives `InputOutput`, and nothing
    /// changes.
    pub fn wrote(&mut self, written: usize) -> (res: Result<bool, Error>)
        ensures
            Self::wf(old(self)@),
            Self::wf(final(self)@),
            old(self)@.msgs.len() > 0 && old(self)@.pos + written <= old(self)@.msgs[0].bytes.len()
                ==> (res matches Ok(drained) && final(self)@ == old(self)@.after_write(
                written as nat,
            ) && drained == (final(self)@.msgs.len() == 0)),
            !(old(self)@.msgs.len() > 0 && old(self)@.pos + written <= old(
                self,
            )@.msgs[0].bytes.len()) ==> (res matches Err(e) && e is InputOutput && final(self)@
                == old(self)@),
    {
        proof {
            use_type_invariant(&*self);
        }
        if self.msgs.len() == 0 {
            return Err(Error::InputOutput("wrote with nothing to write".to_string()));
        }
        let len = self.msgs[0].as_bytes().len();
        if written > len - self.pos {
            return Err(Error::InputOutput("wrote more than was given".to_string()));
        }
        let ghost before = self@;
        let mut taken = OutBound::new();
        std::mem::swap(self, &mut taken);
        let OutBound { pos, mut msgs } = taken;
        if pos + written == len {
            let _ = msgs.pop_front();
            if msgs.len() > 0 {
                let n = msgs[0].as_bytes().len();
            }
            *self = OutBound { pos: 0, msgs };
            assert(self@.msgs =~= before.msgs.skip(1));
        } else {
            *self = OutBound { pos: pos + written, msgs };
            assert(self@.msgs =~= before.msgs);
        }
        Ok(self.msgs.len() == 0)
    }
}

/// What the receiving side holds, as plain values.
pub struct InBoundView {
    /// The bytes received that no message has been made of yet.
    pub received: Seq<u8>,
    /// The file descriptors that came with them.
    pub fds: Seq<i32>,
    /// The place that the last message had among those received; 0 before
    /// the first.
    pub prev_seq: u64,
}

/// The length of the message that starts with `received`, which holds its
/// first 16 bytes at least; or the kind of error that these lead to.
pub open spec fn frame_len(received: Seq<u8>) -> Result<int, ErrorKind> {
    match parse_primary(received) {
        Err(kind) => Err(kind),
        Ok((primary, fields_len)) => if message_len(fields_len as int, primary.body_len as int)
            > MAX_MESSAGE_SIZE {
            Err(ErrorKind::ExcessData)
        } else {
            Ok(message_len(fields_len as int, primary.body_len as int))
        },
    }
}

/// Whether asking a receiving side in the state `before` what to do next
/// leaves it in the state `after` and gives `res`.
pub open spec fn poll_result(before: InBoundView, after: InBoundView, res: Result<Receive, Error>) -> bool {
    if before.received.len() < MIN_MESSAGE_SIZE {
        after == before && (res matches Ok(Receive::Read(n)) && n == MIN_MESSAGE_SIZE
            - before.received.len())
    } else {
        match frame_len(before.received) {
            Err(kind) => after == before && (res matches Err(e) && e.spec_kind() == kind),
            Ok(total) => if before.received.len() < total {
                after == before && (res matches Ok(Receive::Read(n)) && n == total
                    - before.received.len())
            } else if before.prev_seq == u64::MAX {
                after == before && (res matches Err(e) && e is InputOutput)
            } else {
                &&& after == (InBoundView {
                    received: before.received.skip(total),
                    fds: Seq::empty(),
                    prev_seq: (before.prev_seq + 1) as u64,
                })
                &&& match parse_message(
                    before.received.take(total),
                    before.fds,
                    (before.prev_seq + 1) as u64,
                ) {
                    Ok(v) => res matches Ok(Receive::Message(m)) && m@ == v && m.spec_bytes()
                        == before.received.take(total),
                    Err(kind) => res matches Err(e) && e.spec_kind() == kind,
                }
            },
        }
    }
}

/// What the receiving side does next.
#[derive(Debug)]
pub enum Receive {
    /// The message in progress needs more bytes: read this many at most, and
    /// hand them in.
    Read(usize),
    /// A message is complete.
    Message(Message),
}

/// The receiving side of a raw connection: the bytes and file descriptors
/// that were received and that no message has been made of yet, and the
/// count of the messages so far.
#[derive(Debug)]
pub struct InBound {
    buffer: Vec<u8>,
    fds: Vec<i32>,
    pos: usize,
    prev_seq: u64,
}

impl View for InBound {
    type V = InBoundView;

    closed spec fn view(&self) -> InBoundView {
        InBoundView { received: self.buffer@, fds: self.fds@, prev_seq: self.prev_seq }
    }
}

impl InBound {
    /// The cursor stands behind the bytes received.
    #[verifier::type_invariant]
    spec fn inv(self) -> bool {
        self.pos == self.buffer@.len()
    }

    /// A receiving side that starts with the bytes `raw_in_buffer`, which
    /// were read from the transport before: they are the start of the first
    /// message.
    pub fn new(raw_in_buffer: Vec<u8>) -> (inbound: Self)
        ensures
            inbound@ == (InBoundView {
                received: raw_in_buffer@,
                fds: Seq::empty(),
                prev_seq: 0,
            }),
    {
        Self::with_sequence(raw_in_buffer, 0)
    }

    /// A receiving side that starts with the bytes `raw_in_buffer` and whose
    /// first message comes behind the place `prev_seq`.
    pub fn with_sequence(raw_in_buffer: Vec<u8>, prev_seq: u64) -> (inbound: Self)
        ensures
            inbound@ == (InBoundView {
                received: raw_in_buffer@,
                fds: Seq::empty(),
                prev_seq: prev_seq,
            }),
    {
        InBound { pos: raw_in_buffer.len(), buffer: raw_in_buffer, fds: Vec::new(), prev_seq }
    }

    /// Takes in what a read from the transport gave: the bytes `data` and the
    /// file descriptors `fds` that came with them. They are put behind those
    /// received before.
    ///
    /// A read that gave no bytes means that the transport has ended: that
    /// gives `UnexpectedEof`, and nothing changes.
    pub fn fill(&mut self, data: &[u8], fds: Vec<i32>) -> (res: Result<(), Error>)
        ensures
            data@.len() == 0 ==> (res matches Err(e) && e is UnexpectedEof && final(self)@ == old(
                self,
            )@),
            data@.len() > 0 ==> res is Ok && final(self)@ == (InBoundView {
                received: old(self)@.received + data@,
                fds: old(self)@.fds + fds@,
                prev_seq: old(self)@.prev_seq,
            }),
    {
        if data.len() == 0 {
            return Err(Error::UnexpectedEof);
        }
        let ghost before = self@;
        let mut taken = InBound::new(Vec::new());
        std::mem::swap(self, &mut taken);
        let InBound { mut buffer, fds: mut all, pos, prev_seq } = taken;
        append_bytes(&mut buffer, data);
        let mut fds = fds;
        all.append(&mut fds);
        *self = InBound { pos: buffer.len(), buffer, fds: all, prev_seq };
        Ok(())
    }

    /// Says what to do next, and makes a message of the bytes received once
    /// they are enough.
    ///
    /// With fewer than 16 bytes the rest of these is to be read. With 16 or
    /// more the start of the message says how long it is: where it says so
    /// wrongly the error is given, and where bytes are missing they are to be
    /// read; in both cases nothing changes. Where the message is complete,
    /// its bytes and the file descriptors received leave the buffer, the
    /// message gets the next place among those received, and the message
    /// read from them is given, or the error that reading them leads to.
    /// Bytes behind the message are the start of the next one.
    pub fn poll(&mut self) -> (res: Result<Receive, Error>)
        ensures
            poll_result(old(self)@, final(self)@, res),
    {
        proof {
            use_type_invariant(&*self);
        }
        if self.pos < MIN_MESSAGE_SIZE {
            return Ok(Receive::Read(MIN_MESSAGE_SIZE - self.pos));
        }
        let total = match frame_size(self.buffer.as_slice()) {
            Ok(total) => total,
            Err(e) => {
                return Err(e);
            },
        };
        if self.pos < total {
            return Ok(Receive::Read(total - self.pos));
        }
        if self.prev_seq == u64::MAX {
            return Err(Error::InputOutput("too many messages received".to_string()));
        }
        let ghost before = self@;
        let mut taken = InBound::new(Vec::new());
        std::mem::swap(self, &mut taken);
        let InBound { mut buffer, fds, pos, prev_seq } = taken;
        let rest = buffer.split_off(total);
        let seq = prev_seq + 1;
        *self = InBound { pos: rest.len(), buffer: rest, fds: Vec::new(), prev_seq: seq };
        assert(buffer@ =~= before.received.take(total as int));
        assert(self@.received =~= before.received.skip(total as int));
        match Message::from_raw_parts(buffer, fds, seq) {
            Ok(m) => Ok(Receive::Message(m)),
            Err(e) => Err(e),
        }
    }
}

/// The length of the message that starts with `buf`, which holds its first
/// 16 bytes at least.
pub fn frame_size(buf: &[u8]) -> (res: Result<usize, Error>)
    requires
        buf@.len() >= MIN_MESSAGE_SIZE,
    ensures
        match frame_len(buf@) {
            Ok(total) => res matches Ok(n) && n == total && MIN_MESSAGE_SIZE <= n
                <= MAX_MESSAGE_SIZE,
            Err(kind) => res matches Err(e) && e.spec_kind() == kind,
        },
{
    let (primary, fields_len) = match PrimaryHeader::read(buf) {
        Ok(r) => r,
        Err(e) => {
            return Err(e);
        },
    };
    let body_len = primary.body_len();
    proof {
        lemma_padding_for(16 + fields_len, 8);
    }
    if fields_len > 0x800_0000 || body_len > 0x800_0000 {
        return Err(Error::ExcessData);
    }
    let header_len: usize = 16 + fields_len as usize;
    let total = header_len + padding_for_8_bytes(header_len) + body_len as usize;
    if total > MAX_MESSAGE_SIZE {
        return Err(Error::ExcessData);
    }
    Ok(total)
}

/// What a raw connection holds, as plain values.
pub struct ConnectionView {
    /// The receiving side.
    pub inbound: InBoundView,
    /// The sending side.
    pub outbound: OutBoundView,
    /// Whether the connection was closed.
    pub closed: bool,
}

/// A low-level representation of a D-Bus connection: what is to be written
/// to the transport and what to make of what was read from it.
///
/// The connection does no reading and no writing itself. Whoever holds the
/// transport asks it what to do, does it, and tells it what came of it. This
/// works with transports in blocking and in non-blocking mode: a write or a
/// read that has to wait changes nothing here.
#[derive(Debug)]
pub struct Connection {
    inbound: InBound,
    outbound: OutBound,
    closed: bool,
}

impl View for Connection {
    type V = ConnectionView;

    closed spec fn view(&self) -> ConnectionView {
        ConnectionView { inbound: self.inbound@, outbound: self.outbound@, closed: self.closed }
    }
}

impl Connection {
    /// A connection whose transport has given the bytes `raw_in_buffer`
    /// already: what the authentication read beyond its own end.
    pub fn new(raw_in_buffer: Vec<u8>) -> (conn: Connection)
        ensures
            conn@.inbound == (InBoundView {
                received: raw_in_buffer@,
                fds: Seq::empty(),
                prev_seq: 0,
            }),
            conn@.outbound.pos == 0,
            conn@.outbound.msgs.len() == 0,
            !conn@.closed,
    {
        Connection { inbound: InBound::new(raw_in_buffer), outbound: OutBound::new(), closed: false }
    }

    /// Says what to write next to flush the outgoing queue: the bytes of its
    /// first message that are not written yet, or nothing where the queue is
    /// empty, which is when those who wait for room in it are to be woken.
    ///
    /// Nothing changes. On a closed connection this gives `InputOutput`.
    pub fn try_flush(&self) -> (res: Result<Option<Write>, Error>)
        ensures
            OutBound::wf(self@.outbound),
            self@.closed ==> (res matches Err(e) && e is InputOutput),
            !self@.closed ==> (res matches Ok(write) && match write {
                Some(w) => self@.outbound.msgs.len() > 0 && w.offset == self@.outbound.pos
                    && w.offset < self@.outbound.msgs[0].bytes.len() && w.attach_fds == (
                self@.outbound.pos == 0),
                None => self@.outbound.msgs.len() == 0,
            }),
    {
        let next = self.outbound.next_write();
        if self.closed {
            return Err(Error::InputOutput("connection closed".to_string()));
        }
        Ok(next)
    }

    /// Takes note that a write gave `written` more bytes of the first message
    /// to the transport. A message that is written to its end leaves the
    /// queue. Says whether the queue is empty now.
    ///
    /// More bytes than the first message has left give `InputOutput`, and so
    /// does a closed connection; then nothing changes.
    pub fn sent(&mut self, written: usize) -> (res: Result<bool, Error>)
        ensures
            final(self)@.inbound == old(self)@.inbound,
            final(self)@.closed == old(self)@.closed,
            !old(self)@.closed && old(self)@.outbound.msgs.len() > 0 && old(self)@.outbound.pos
                + written <= old(self)@.outbound.msgs[0].bytes.len() ==> (res matches Ok(drained)
                && final(self)@.outbound == old(self)@.outbound.after_write(written as nat)
                && drained == (final(self)@.outbound.msgs.len() == 0)),
            !(!old(self)@.closed && old(self)@.outbound.msgs.len() > 0 && old(self)@.outbound.pos
                + written <= old(self)@.outbound.msgs[0].bytes.len()) ==> (res matches Err(e)
                && e is InputOutput && final(self)@ == old(self)@),
    {
        if self.closed {
            return Err(Error::InputOutput("connection closed".to_string()));
        }
        self.outbound.wrote(written)
    }

    /// Whether the queue of outgoing messages is full, so that a sender has
    /// to wait until it has drained.
    pub fn await_out_queue_ready(&self) -> (wait: bool)
        ensures
            wait == (self@.outbound.msgs.len() >= MAX_OUT_QUEUE_LEN),
    {
        self.outbound.is_full()
    }

    /// Enqueue a message to be sent out to the transport.
    ///
    /// This writes nothing: the message is put behind those that wait, however
    /// many these are.
    pub fn enqueue_message(&mut self, msg: Arc<Message>)
        ensures
            final(self)@.outbound.msgs == old(self)@.outbound.msgs.push(outgoing(msg)),
            final(self)@.outbound.pos == old(self)@.outbound.pos,
            final(self)@.inbound == old(self)@.inbound,
            final(self)@.closed == old(self)@.closed,
    {
        self.outbound.enqueue(msg);
    }

    /// Says what to do next to receive a message, and gives the message once
    /// the bytes received are enough: see [`InBound::poll`].
    ///
    /// On a closed connection this gives `InputOutput` and nothing changes.
    pub fn try_receive_message(&mut self) -> (res: Result<Receive, Error>)
        ensures
            final(self)@.outbound == old(self)@.outbound,
            final(self)@.closed == old(self)@.closed,
            old(self)@.closed ==> (res matches Err(e) && e is InputOutput) && final(self)@ == old(
                self,
            )@,
            !old(self)@.closed ==> poll_result(old(self)@.inbound, final(self)@.inbound, res),
    {
        if self.closed {
            return Err(Error::InputOutput("connection closed".to_string()));
        }
        self.inbound.poll()
    }

    /// Takes in what a read from the transport gave: see [`InBound::fill`].
    /// A read that gave no bytes gives `UnexpectedEof`.
    ///
    /// On a closed connection this gives `InputOutput` and nothing changes.
    pub fn received(&mut self, data: &[u8], fds: Vec<i32>) -> (res: Result<(), Error>)
        ensures
            final(self)@.outbound == old(self)@.outbound,
            final(self)@.closed == old(self)@.closed,
            old(self)@.closed ==> (res matches Err(e) && e is InputOutput) && final(self)@ == old(
                self,
            )@,
            !old(self)@.closed && data@.len() == 0 ==> (res matches Err(e) && e is UnexpectedEof)
                && final(self)@ == old(self)@,
            !old(self)@.closed && data@.len() > 0 ==> res is Ok && final(self)@.inbound == (
            InBoundView {
                received: old(self)@.inbound.received + data@,
                fds: old(self)@.inbound.fds + fds@,
                prev_seq: old(self)@.inbound.prev_seq,
            }),
    {
        if self.closed {
            return Err(Error::InputOutput("connection closed".to_string()));
        }
        self.inbound.fill(data, fds)
    }

    /// Close the connection.
    ///
    /// After this call, all reading and writing operations will fail.
    pub fn close(&mut self)
        ensures
            final(self)@ == (ConnectionView { closed: true, ..old(self)@ }),
    {
        self.closed = true;
    }

    /// Whether the connection was closed.
    pub fn is_closed(&self) -> (closed: bool)
        ensures
            closed == self@.closed,
    {
        self.closed
    }

    /// The message that is being written, if any.
    pub fn front(&self) -> (msg: Option<&Arc<Message>>)
        ensures
            match msg {
                Some(m) => self@.outbound.msgs.len() > 0 && outgoing(*m)
                    == self@.outbound.msgs[0],
                None => self@.outbound.msgs.len() == 0,
            },
    {
        self.outbound.front()
    }
}

/// A message that is enqueued is written behind all that waits: the bytes
/// still to be written are those of before and then the bytes of the
/// message.
pub proof fn lemma_enqueue_appends(v: OutBoundView, m: Outgoing)
    requires
        v.msgs.len() == 0 ==> v.pos == 0,
    ensures
        (OutBoundView { msgs: v.msgs.push(m), ..v }).pending_bytes() == v.pending_bytes()
            + m.bytes,
    decreases v.msgs.len(),
{
    let after = OutBoundView { msgs: v.msgs.push(m), ..v };
    if v.msgs.len() == 0 {
        let none = OutBoundView { pos: 0, msgs: after.msgs.skip(1) };
        assert(after.msgs.skip(1) =~= Seq::<Outgoing>::empty());
        assert(none.pending_bytes() =~= Seq::<u8>::empty());
        assert(m.bytes.skip(0) =~= m.bytes);
        assert(after.pending_bytes() =~= v.pending_bytes() + m.bytes);
    } else {
        let rest = OutBoundView { pos: 0, msgs: v.msgs.skip(1) };
        lemma_enqueue_appends(rest, m);
        assert(after.msgs.skip(1) =~= v.msgs.skip(1).push(m));
        assert(after.msgs[0] == v.msgs[0]);
        assert(after.pending_bytes() =~= v.pending_bytes() + m.bytes);
    }
}

/// What is written is the start of what was still to be written, and what
/// is left is the rest of it: bytes leave in the order in which their
/// messages were enqueued, none is left out and none leaves twice.
pub proof fn lemma_write_takes_front(v: OutBoundView, written: nat)
    requires
        v.msgs.len() > 0,
        v.pos + written <= v.msgs[0].bytes.len(),
    ensures
        v.pending_bytes() == v.msgs[0].bytes.subrange(v.pos as int, (v.pos + written) as int)
            + v.after_write(written).pending_bytes(),
{
    let first = v.msgs[0].bytes;
    let rest = OutBoundView { pos: 0, msgs: v.msgs.skip(1) };
    let after = v.after_write(written);
    if v.pos + written == first.len() {
        assert(first.subrange(v.pos as int, (v.pos + written) as int) =~= first.skip(v.pos as int));
    } else {
        assert(first.skip(v.pos as int) =~= first.subrange(v.pos as int, (v.pos + written) as int)
            + first.skip((v.pos + written) as int));
        assert(v.pending_bytes() =~= first.subrange(v.pos as int, (v.pos + written) as int)
            + after.pending_bytes());
    }
}

/// Bytes that start with a well-formed message say how long that message
/// is: the first 16 of them give the length of the whole message, whatever
/// follows it.
pub proof fn lemma_frame_of_message(m: MessageView, rest: Seq<u8>)
    requires
        m.wf(),
    ensures
        (m.to_bytes() + rest).len() >= MIN_MESSAGE_SIZE,
        frame_len(m.to_bytes() + rest) == Ok::<int, ErrorKind>(m.total_len()),
        (m.to_bytes() + rest).take(m.total_len()) == m.to_bytes(),
        (m.to_bytes() + rest).skip(m.total_len()) == rest,
{
    let sig = m.primary.endian_sig;
    let bytes = m.to_bytes();
    let all = bytes + rest;
    crate::message::codec::lemma_message_layout(m);
    crate::message::codec::lemma_primary_write_read(
        m.primary,
        m.fields_len() as u32,
        crate::message::fields::fields_to_bytes(sig, m.fields) + m.body + rest,
    );
    assert(all =~= m.primary.to_bytes() + crate::byte_order::u32_to_bytes(
        sig,
        m.fields_len() as u32,
    ) + (crate::message::fields::fields_to_bytes(sig, m.fields) + m.body + rest));
    lemma_padding_for(16 + m.fields_len(), 8);
    assert(all.take(m.total_len()) =~= bytes);
    assert(all.skip(m.total_len()) =~= rest);
}

/// A receiving side whose bytes start with a well-formed message gives that
/// message next, with the file descriptors received and the next place among
/// the messages, and keeps what follows the message: messages arrive as they
/// were sent, one after the other.
pub proof fn lemma_receive_message(
    before: InBoundView,
    after: InBoundView,
    res: Result<Receive, Error>,
    m: MessageView,
    rest: Seq<u8>,
)
    requires
        m.wf(),
        before.received == m.to_bytes() + rest,
        before.fds == m.fds,
        before.prev_seq < u64::MAX,
        m.recv_seq == before.prev_seq + 1,
        poll_result(before, after, res),
    ensures
        res matches Ok(Receive::Message(got)) && got@ == m && got.spec_bytes() == m.to_bytes(),
        after == (InBoundView { received: rest, fds: Seq::empty(), prev_seq: m.recv_seq }),
{
    lemma_frame_of_message(m, rest);
    crate::message::codec::lemma_encode_decode(m);
}

} // verus!

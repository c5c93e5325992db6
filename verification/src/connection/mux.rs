//! The multiplexer of a connection: who gets which message.
//!
//! It gives outgoing calls their serial numbers and remembers which of them
//! wait for a reply; it hands each reply to the call that it answers and
//! each signal to the streams that asked for it; and it knows which match
//! rules the bus has to be told of. It does no sending and no receiving:
//! it says what is to be done.

use std::collections::VecDeque;
use std::sync::Arc;
use vstd::prelude::*;
use crate::error::Error;
use crate::match_rule::{rule_matches, rule_text, MatchRule, MatchRuleView};
use crate::message::codec::{Message, MessageView};
use crate::message::fields::{find_field, REPLY_SERIAL};
use crate::message::header::{Flags, Type};
use crate::names::UniqueName;

verus! {

/// The number of messages that a stream holds at most where its maker names
/// no number.
pub const DEFAULT_MAX_QUEUED: usize = 64;

/// `std::sync::Arc::clone`: another pointer to the same message.
#[verifier::external_body]
fn share(msg: &Arc<Message>) -> (res: Arc<Message>)
    ensures
        res == *msg,
{
    Arc::clone(msg)
}

/// The serial number that follows `serial`: the next number, and 1 behind
/// the greatest one, for 0 is no serial number.
pub open spec fn serial_succ(serial: u32) -> u32 {
    if serial == u32::MAX {
        1
    } else {
        (serial + 1) as u32
    }
}

/// The serial number that is handed out `k` steps after `serial`.
pub open spec fn serial_after(serial: u32, k: nat) -> u32
    decreases k,
{
    if k == 0 {
        serial
    } else {
        serial_succ(serial_after(serial, (k - 1) as nat))
    }
}

/// The serial number `k` steps after `serial`, which is not 0, in closed
/// form: the numbers from 1 to 2^32 - 1 follow each other in a circle.
pub proof fn lemma_serial_after(serial: u32, k: nat)
    requires
        serial != 0,
    ensures
        serial_after(serial, k) == (serial - 1 + k) % 0xffff_ffff + 1,
        serial_after(serial, k) != 0,
    decreases k,
{
    if k > 0 {
        lemma_serial_after(serial, (k - 1) as nat);
        let prev = serial_after(serial, (k - 1) as nat);
        let a = serial - 1 + k - 1;
        assert((a + 1) % 0xffff_ffff == if a % 0xffff_ffff == 0xffff_fffe {
            0int
        } else {
            a % 0xffff_ffff + 1
        });
    }
}

/// Serial numbers that are handed out one after the other are not 0, and two
/// of them differ unless 2^32 - 1 numbers or more were handed out from the
/// one to the other.
pub proof fn lemma_serials_distinct(serial: u32, i: nat, j: nat)
    requires
        serial != 0,
        i < j,
        j - i < 0xffff_ffff,
    ensures
        serial_after(serial, i) != 0,
        serial_after(serial, j) != 0,
        serial_after(serial, i) != serial_after(serial, j),
{
    lemma_serial_after(serial, i);
    lemma_serial_after(serial, j);
    let a = serial - 1 + i;
    let b = serial - 1 + j;
    if a % 0xffff_ffff == b % 0xffff_ffff {
        assert(b - a == ((b / 0xffff_ffff) - (a / 0xffff_ffff)) * 0xffff_ffff);
        assert(false);
    }
}

/// What a stream of messages holds, as plain values.
pub struct StreamView {
    /// The number that names the stream.
    pub id: u64,
    /// The rule that the messages of the stream have to meet, if there is
    /// one.
    pub rule: Option<MatchRuleView>,
    /// The messages that wait to be read, oldest first.
    pub queue: Seq<Arc<Message>>,
    /// The number of messages that may wait at most.
    pub cap: nat,
    /// The number of messages that were dropped because too many waited.
    pub dropped: u64,
}

impl StreamView {
    /// Whether the stream asks for the message `m`.
    pub open spec fn wants(self, m: MessageView) -> bool {
        match self.rule {
            Some(r) => rule_matches(r, m),
            None => true,
        }
    }

    /// The stream with `msg` behind the messages that wait. Where as many
    /// wait as may, the oldest is dropped and counted.
    pub open spec fn pushed(self, msg: Arc<Message>) -> StreamView {
        if self.queue.len() >= self.cap {
            StreamView {
                queue: self.queue.skip(1).push(msg),
                dropped: if self.dropped == u64::MAX {
                    self.dropped
                } else {
                    (self.dropped + 1) as u64
                },
                ..self
            }
        } else {
            StreamView { queue: self.queue.push(msg), ..self }
        }
    }

    /// The stream after the message `msg` came in: with the message where
    /// it asks for it, else as it was.
    pub open spec fn delivered(self, msg: Arc<Message>) -> StreamView {
        if self.wants(msg@) {
            self.pushed(msg)
        } else {
            self
        }
    }

    /// No more messages wait than may, and one may wait at least.
    pub open spec fn wf(self) -> bool {
        1 <= self.cap && self.queue.len() <= self.cap
    }

    /// Whether the stream has a rule with the text `text`.
    pub open spec fn has_text(self, text: Seq<char>) -> bool {
        self.rule matches Some(r) && rule_text(r) == text
    }
}

/// A stream of messages: a rule, and the messages that met it and wait to be
/// read.
#[derive(Debug)]
pub struct Subscription {
    id: u64,
    rule: Option<MatchRule>,
    text: Option<String>,
    queue: VecDeque<Arc<Message>>,
    cap: usize,
    dropped: u64,
}

impl View for Subscription {
    type V = StreamView;

    closed spec fn view(&self) -> StreamView {
        StreamView {
            id: self.id,
            rule: match self.rule {
                Some(r) => Some(r@),
                None => None,
            },
            queue: self.queue@,
            cap: self.cap as nat,
            dropped: self.dropped,
        }
    }
}

impl Subscription {
    /// The text that is kept beside the rule is the text of the rule.
    closed spec fn text_ok(self) -> bool {
        match (self.rule, self.text) {
            (Some(r), Some(t)) => t@ == rule_text(r@),
            (None, None) => true,
            _ => false,
        }
    }

    /// Takes in the message `msg`: where the stream asks for it, it is put
    /// behind the messages that wait, and the oldest of these is dropped
    /// where they are as many as may wait.
    fn deliver(&mut self, msg: &Arc<Message>) -> (took: bool)
        requires
            old(self)@.wf(),
        ensures
            final(self)@ == old(self)@.delivered(*msg),
            final(self)@.wf(),
            final(self).text_ok() == old(self).text_ok(),
            took == old(self)@.wants(msg@),
    {
        let wanted = match &self.rule {
            Some(r) => r.matches(&**msg),
            None => true,
        };
        if !wanted {
            return false;
        }
        let ghost before = self@;
        if self.queue.len() >= self.cap {
            let _ = self.queue.pop_front();
            if self.dropped < u64::MAX {
                self.dropped = self.dropped + 1;
            }
        }
        self.queue.push_back(share(msg));
        assert(self@.queue =~= before.pushed(*msg).queue);
        true
    }
}

/// What the multiplexer holds, as plain values.
pub struct MuxView {
    /// The serial number that the next call gets.
    pub next_serial: u32,
    /// The serial numbers of the calls that wait for a reply.
    pub pending: Seq<u32>,
    /// The streams.
    pub streams: Seq<StreamView>,
    /// The number that the next stream gets.
    pub next_stream: u64,
    /// Whether the peer is a bus, which has to be told of match rules.
    pub bus: bool,
    /// Whether someone is there to answer method calls.
    pub object_server: bool,
    /// Whether the connection has terminated.
    pub terminated: bool,
    /// The unique name that the bus gave to the connection, once it is known.
    pub unique_name: Option<Seq<u8>>,
}

impl MuxView {
    /// Whether a call with the serial number `serial` waits for a reply.
    pub open spec fn is_pending(self, serial: u32) -> bool {
        self.pending.contains(serial)
    }

    /// Whether one of the streams has a rule with the text `text`.
    pub open spec fn has_rule(self, text: Seq<char>) -> bool {
        exists|i: int| 0 <= i < self.streams.len() && (#[trigger] self.streams[i]).has_text(text)
    }

    /// The place of the stream with the number `id` among the streams, or
    /// their number where none has it.
    pub open spec fn place_of(self, id: u64) -> int {
        stream_place(self.streams, id)
    }

    /// The state of every multiplexer. The next serial number is not 0. No
    /// two calls that wait have the same serial number, and none has 0. No
    /// two streams have the same number, and each is well formed.
    pub open spec fn wf(self) -> bool {
        &&& self.next_serial != 0
        &&& self.pending.no_duplicates()
        &&& !self.pending.contains(0u32)
        &&& forall|i: int| 0 <= i < self.streams.len() ==> (#[trigger] self.streams[i]).wf()
        &&& forall|i: int| 0 <= i < self.streams.len() ==> (#[trigger] self.streams[i]).id
            < self.next_stream
        &&& forall|i: int, j: int|
            0 <= i < j < self.streams.len() ==> (#[trigger] self.streams[i]).id
                != (#[trigger] self.streams[j]).id
    }
}

/// The place of the first stream with the number `id` among `streams`, or
/// their number where none has it.
pub open spec fn stream_place(streams: Seq<StreamView>, id: u64) -> int
    decreases streams.len(),
{
    if streams.len() == 0 || streams[0].id == id {
        0
    } else {
        1 + stream_place(streams.skip(1), id)
    }
}

/// Whether a reply is expected to the message `m`: it is a method call and
/// does not have the flag that says that no reply is expected.
pub open spec fn expects_reply(m: MessageView) -> bool {
    m.primary.msg_type == Type::MethodCall && m.primary.flags & 0x1 == 0
}

/// The serial numbers `pending`, which are all different, without `serial`.
pub open spec fn without(pending: Seq<u32>, serial: u32) -> Seq<u32> {
    if pending.contains(serial) {
        pending.remove(pending.index_of(serial))
    } else {
        pending
    }
}

/// Taking the one place where a serial number stands out of serial numbers
/// that are all different leaves them without that serial number: it is
/// among them no more, and every other one is as before.
pub proof fn lemma_without(pending: Seq<u32>, serial: u32, i: int)
    requires
        pending.no_duplicates(),
        0 <= i < pending.len(),
        pending[i] == serial,
    ensures
        pending.remove(i) == without(pending, serial),
        pending.remove(i).no_duplicates(),
        !pending.remove(i).contains(serial),
        forall|x: u32| x != serial ==> (pending.remove(i).contains(x) <==> pending.contains(x)),
{
    let removed = pending.remove(i);
    assert(pending.contains(serial));
    let at = pending.index_of(serial);
    assert(pending[at] == pending[i]);
    assert(at == i);
    assert forall|a: int, b: int|
        0 <= a < removed.len() && 0 <= b < removed.len() && a != b implies removed[a]
        != removed[b] by {
        let a2 = if a < i { a } else { a + 1 };
        let b2 = if b < i { b } else { b + 1 };
        assert(pending[a2] != pending[b2]);
    }
    assert(!removed.contains(serial)) by {
        if removed.contains(serial) {
            let k = choose|k: int| 0 <= k < removed.len() && removed[k] == serial;
            let k2 = if k < i { k } else { k + 1 };
            assert(pending[k2] == pending[i]);
        }
    }
    assert forall|x: u32| x != serial implies (removed.contains(x) <==> pending.contains(x)) by {
        if removed.contains(x) {
            let k = choose|k: int| 0 <= k < removed.len() && removed[k] == x;
            let k2 = if k < i { k } else { k + 1 };
            assert(pending[k2] == x);
        }
        if pending.contains(x) {
            let k = choose|k: int| 0 <= k < pending.len() && pending[k] == x;
            let k2 = if k < i { k } else { k - 1 };
            assert(removed[k2] == x);
        }
    }
}

/// The number of the first `k` of the `streams` that ask for the message
/// `m`.
pub open spec fn wanting(streams: Seq<StreamView>, m: MessageView, k: int) -> nat
    decreases k,
{
    if k <= 0 {
        0
    } else {
        wanting(streams, m, k - 1) + if streams[k - 1].wants(m) {
            1nat
        } else {
            0nat
        }
    }
}

/// The serial number that the message `m` names as the one that it answers,
/// if it names one.
pub open spec fn reply_serial_of(m: MessageView) -> Option<u32> {
    match find_field(m.fields, REPLY_SERIAL) {
        Some(v) => Some(v.num),
        None => None,
    }
}

/// Whether a multiplexer in the state `before`, when the message `msg` comes
/// in, says `res` and is in the state `after` then.
pub open spec fn dispatched(before: MuxView, msg: Arc<Message>, after: MuxView, res: Dispatch) -> bool {
    match msg@.primary.msg_type {
        Type::MethodReturn | Type::Error => match reply_serial_of(msg@) {
            Some(serial) => if before.is_pending(serial) {
                res == Dispatch::Reply(serial) && after == (MuxView {
                    pending: without(before.pending, serial),
                    ..before
                }) && !after.is_pending(serial)
            } else {
                res == Dispatch::Dropped && after == before
            },
            None => res == Dispatch::Dropped && after == before,
        },
        Type::Signal => res == Dispatch::Signal(
            wanting(before.streams, msg@, before.streams.len() as int) as usize,
        ) && after == (MuxView {
            streams: before.streams.map_values(|s: StreamView| s.delivered(msg)),
            ..before
        }),
        Type::MethodCall => after == before && res == if before.object_server {
            Dispatch::MethodCall
        } else {
            Dispatch::UnknownMethod
        },
        Type::Invalid => after == before && res == Dispatch::Dropped,
    }
}

/// The number of messages that wait in a stream at most, given what its
/// maker said: that number, one at least, and 64 where nothing was said.
pub open spec fn queue_cap(max_queued: Option<usize>) -> nat {
    match max_queued {
        Some(n) => if n == 0 {
            1
        } else {
            n as nat
        },
        None => DEFAULT_MAX_QUEUED as nat,
    }
}

/// Where no stream has the number `id`, its place is the number of the
/// streams.
pub proof fn lemma_place_absent(streams: Seq<StreamView>, id: u64)
    requires
        forall|j: int| 0 <= j < streams.len() ==> (#[trigger] streams[j]).id != id,
    ensures
        stream_place(streams, id) == streams.len(),
    decreases streams.len(),
{
    if streams.len() > 0 {
        assert(streams[0].id != id);
        let rest = streams.skip(1);
        assert forall|j: int| 0 <= j < rest.len() implies (#[trigger] rest[j]).id != id by {
            assert(streams[j + 1].id != id);
        }
        lemma_place_absent(rest, id);
    }
}

/// What is to be done after a stream was dropped.
#[derive(Debug)]
pub struct Unsubscribed {
    /// The rule of the stream, if it had one.
    pub rule: Option<MatchRule>,
    /// The rule to tell the bus of with `RemoveMatch`, where this was the
    /// last stream with that rule on a bus connection.
    pub remove_match: Option<String>,
    /// The number of messages that waited in the stream and were never read.
    pub unread: usize,
}

/// A call that is ready to be sent.
#[derive(Debug)]
pub struct Prepared {
    /// The message, with its serial number in it.
    pub msg: Message,
    /// The serial number of the message.
    pub serial: u32,
    /// Whether a reply is waited for: the reply will name this serial number.
    pub awaits_reply: bool,
}

/// What is to be done with a message that came in.
#[derive(Debug, Clone, Copy, PartialEq, Eq, Structural)]
pub enum Dispatch {
    /// The message answers the call with this serial number, which waited
    /// for it and waits no more: hand it to the caller.
    Reply(u32),
    /// The message is a signal, and this many streams took it.
    Signal(usize),
    /// The message is a method call: hand it to the object server.
    MethodCall,
    /// The message is a method call and nobody is there to answer it: answer
    /// with the error `org.freedesktop.DBus.Error.UnknownMethod`.
    UnknownMethod,
    /// Nobody waits for the message: forget it.
    Dropped,
}

/// What a stream gives to its reader.
#[derive(Debug)]
pub enum StreamItem {
    /// The oldest of the messages that waited.
    Message(Arc<Message>),
    /// No message waits; more may come.
    Empty,
    /// No message waits and none will come: the connection has terminated.
    Closed,
    /// There is no such stream.
    Unknown,
}

/// What is to be done after a stream was made.
#[derive(Debug)]
pub struct Subscribed {
    /// The number that names the stream.
    pub id: u64,
    /// The rule to tell the bus of with `AddMatch`, where this is the first
    /// stream with that rule on a bus connection.
    pub add_match: Option<String>,
}

/// The multiplexer of one connection.
#[derive(Debug)]
pub struct Multiplexer {
    next_serial: u32,
    pending: Vec<u32>,
    streams: Vec<Subscription>,
    next_stream: u64,
    bus: bool,
    object_server: bool,
    terminated: bool,
    unique_name: Option<UniqueName>,
}

impl View for Multiplexer {
    type V = MuxView;

    closed spec fn view(&self) -> MuxView {
        MuxView {
            next_serial: self.next_serial,
            pending: self.pending@,
            streams: self.streams@.map_values(|s: Subscription| s@),
            next_stream: self.next_stream,
            bus: self.bus,
            object_server: self.object_server,
            terminated: self.terminated,
            unique_name: match self.unique_name {
                Some(name) => Some(name@),
                None => None,
            },
        }
    }
}

/// Whether `a` and `b` are the same text.
fn same_text(a: &String, b: &String) -> (same: bool)
    ensures
        same == (a@ == b@),
{
    *a == *b
}

/// Whether the serial number `serial` is among `pending`.
fn contains_serial(pending: &Vec<u32>, serial: u32) -> (found: Option<usize>)
    ensures
        match found {
            Some(i) => i < pending@.len() && pending@[i as int] == serial,
            None => !pending@.contains(serial),
        },
{
    let n = pending.len();
    let mut i: usize = 0;
    while i < n
        invariant
            i <= n,
            n == pending@.len(),
            forall|j: int| 0 <= j < i ==> pending@[j] != serial,
        decreases n - i,
    {
        if pending[i] == serial {
            return Some(i);
        }
        i += 1;
    }
    None
}

impl Multiplexer {
    /// Every multiplexer is well formed, and the text kept beside each rule
    /// is the text of the rule.
    #[verifier::type_invariant]
    spec fn inv(self) -> bool {
        &&& self@.wf()
        &&& forall|i: int| 0 <= i < self.streams@.len() ==> (#[trigger] self.streams@[i]).text_ok()
    }

    /// A multiplexer with no calls and no streams. `bus` says whether the
    /// peer is a bus, which has to be told of match rules; `object_server`
    /// whether someone is there to answer method calls.
    pub fn new(bus: bool, object_server: bool) -> (mux: Self)
        ensures
            mux@ == (MuxView {
                next_serial: 1,
                pending: Seq::empty(),
                streams: Seq::empty(),
                next_stream: 0,
                bus: bus,
                object_server: object_server,
                terminated: false,
                unique_name: None,
            }),
            mux@.wf(),
    {
        let mux = Multiplexer {
            next_serial: 1,
            pending: Vec::new(),
            streams: Vec::new(),
            next_stream: 0,
            bus,
            object_server,
            terminated: false,
            unique_name: None,
        };
        assert(mux@.streams =~= Seq::empty());
        mux
    }

    /// Hands out the next serial number. It is not 0, and the one that
    /// follows it is handed out next.
    pub fn next_serial(&mut self) -> (serial: u32)
        ensures
            serial == old(self)@.next_serial,
            serial != 0,
            final(self)@ == (MuxView { next_serial: serial_succ(serial), ..old(self)@ }),
            final(self)@.wf(),
    {
        proof {
            use_type_invariant(&*self);
        }
        let serial = self.next_serial;
        let next = if serial == u32::MAX {
            1
        } else {
            serial + 1
        };
        let mut taken = Multiplexer::new(false, false);
        std::mem::swap(self, &mut taken);
        let Multiplexer {
            next_serial,
            pending,
            streams,
            next_stream,
            bus,
            object_server,
            terminated,
            unique_name,
        } = taken;
        *self = Multiplexer {
            next_serial: next,
            pending,
            streams,
            next_stream,
            bus,
            object_server,
            terminated,
            unique_name,
        };
        serial
    }

    /// Takes the state out of `self`, which is left as a new multiplexer
    /// until a state is put back.
    fn take_state(&mut self) -> (state: Multiplexer)
        ensures
            state == *old(self),
    {
        let mut taken = Multiplexer::new(false, false);
        std::mem::swap(self, &mut taken);
        taken
    }

    /// Gets the call `msg` ready to be sent: gives it the next serial number
    /// and, where the call expects a reply, notes that a reply to that serial
    /// number is waited for.
    ///
    /// A reply is expected to a method call that does not say otherwise by
    /// its flag. A message that has a serial number already keeps it.
    ///
    /// On a terminated connection this gives `Disconnected` and nothing
    /// changes. Where a call with the same serial number still waits for its
    /// reply, which takes 2^32 - 1 calls while it waits, this gives
    /// `InputOutput`; the serial number is used up.
    pub fn prepare_call(&mut self, msg: Message) -> (res: Result<Prepared, Error>)
        ensures
            final(self)@.wf(),
            old(self)@.terminated ==> (res matches Err(e) && e is Disconnected) && final(self)@
                == old(self)@,
            !old(self)@.terminated ==> {
                let serial = match msg@.primary.serial_num {
                    Some(n) => n,
                    None => old(self)@.next_serial,
                };
                let awaits = expects_reply(msg@);
                let next = MuxView {
                    next_serial: serial_succ(old(self)@.next_serial),
                    ..old(self)@
                };
                if awaits && old(self)@.is_pending(serial) {
                    (res matches Err(e) && e is InputOutput) && final(self)@ == next
                } else {
                    &&& res matches Ok(p)
                    &&& p.serial == serial
                    &&& p.serial != 0
                    &&& p.awaits_reply == awaits
                    &&& p.msg@ == (MessageView {
                        primary: crate::message::header::PrimaryHeaderView {
                            serial_num: Some(serial),
                            ..msg@.primary
                        },
                        ..msg@
                    })
                    &&& final(self)@ == (MuxView {
                        pending: if awaits {
                            old(self)@.pending.push(serial)
                        } else {
                            old(self)@.pending
                        },
                        ..next
                    })
                }
            },
    {
        proof {
            use_type_invariant(&*self);
        }
        if self.terminated {
            return Err(Error::Disconnected);
        }
        let fresh = self.next_serial();
        let awaits = msg.message_type() == Type::MethodCall && !msg.primary_header().flags().contains(
            Flags::NoReplyExpected,
        );
        let msg = msg.with_serial(fresh);
        let serial = match msg.serial_num() {
            Some(n) => n,
            None => fresh,
        };
        proof {
            use_type_invariant(&*self);
        }
        if !awaits {
            return Ok(Prepared { msg, serial, awaits_reply: false });
        }
        if contains_serial(&self.pending, serial).is_some() {
            return Err(Error::InputOutput("serial number still in use".to_string()));
        }
        let ghost before = self@;
        let Multiplexer {
            next_serial,
            mut pending,
            streams,
            next_stream,
            bus,
            object_server,
            terminated,
            unique_name,
        } = self.take_state();
        pending.push(serial);
        proof {
            assert forall|i: int, j: int|
                0 <= i < pending@.len() && 0 <= j < pending@.len() && i != j implies pending@[i]
                != pending@[j] by {
                if i < before.pending.len() && j < before.pending.len() {
                    assert(before.pending[i] != before.pending[j]);
                } else if i < before.pending.len() {
                    assert(before.pending.contains(before.pending[i]));
                } else {
                    assert(before.pending.contains(before.pending[j]));
                }
            }
            assert(!pending@.contains(0u32)) by {
                if pending@.contains(0u32) {
                    let k = choose|k: int| 0 <= k < pending@.len() && pending@[k] == 0u32;
                    if k < before.pending.len() {
                        assert(before.pending.contains(0u32));
                    }
                }
            }
        }
        *self = Multiplexer {
            next_serial,
            pending,
            streams,
            next_stream,
            bus,
            object_server,
            terminated,
            unique_name,
        };
        Ok(Prepared { msg, serial, awaits_reply: true })
    }

    /// Gives up the call with the serial number `serial`: no reply to it is
    /// waited for any more, and one that comes is forgotten. Says whether the
    /// call waited.
    pub fn cancel_call(&mut self, serial: u32) -> (waited: bool)
        ensures
            final(self)@.wf(),
            waited == old(self)@.is_pending(serial),
            final(self)@ == (MuxView {
                pending: without(old(self)@.pending, serial),
                ..old(self)@
            }),
            !final(self)@.is_pending(serial),
    {
        proof {
            use_type_invariant(&*self);
        }
        let ghost before = self@;
        match contains_serial(&self.pending, serial) {
            Some(i) => {
                let Multiplexer {
                    next_serial,
                    mut pending,
                    streams,
                    next_stream,
                    bus,
                    object_server,
                    terminated,
                    unique_name,
                } = self.take_state();
                let _ = pending.remove(i);
                proof {
                    lemma_without(before.pending, serial, i as int);
                }
                *self = Multiplexer {
                    next_serial,
                    pending,
                    streams,
                    next_stream,
                    bus,
                    object_server,
                    terminated,
                    unique_name,
                };
                true
            },
            None => false,
        }
    }

    /// Whether a call with the serial number `serial` waits for a reply.
    pub fn is_pending(&self, serial: u32) -> (waits: bool)
        ensures
            waits == self@.is_pending(serial),
    {
        contains_serial(&self.pending, serial).is_some()
    }

    /// The number of calls that wait for a reply.
    pub fn pending_len(&self) -> (n: usize)
        ensures
            n == self@.pending.len(),
    {
        self.pending.len()
    }

    /// Whether the connection has terminated.
    pub fn is_terminated(&self) -> (terminated: bool)
        ensures
            terminated == self@.terminated,
    {
        self.terminated
    }

    /// Takes note that the connection has terminated, and gives the serial
    /// numbers of the calls that waited for a reply: each of them is to fail
    /// with `Disconnected`. No call waits any more, and no call can be made.
    /// The streams give what they hold and are closed then.
    pub fn terminate(&mut self) -> (failed: Vec<u32>)
        ensures
            final(self)@.wf(),
            failed@ == old(self)@.pending,
            final(self)@ == (MuxView { pending: Seq::empty(), terminated: true, ..old(self)@ }),
    {
        proof {
            use_type_invariant(&*self);
        }
        let Multiplexer {
            next_serial,
            pending,
            streams,
            next_stream,
            bus,
            object_server,
            terminated,
            unique_name,
        } = self.take_state();
        *self = Multiplexer {
            next_serial,
            pending: Vec::new(),
            streams,
            next_stream,
            bus,
            object_server,
            terminated: true,
            unique_name,
        };
        pending
    }

    /// The unique name that the bus gave to the connection, once it is known.
    pub fn unique_name(&self) -> (name: Option<&UniqueName>)
        ensures
            self@.unique_name == match name {
                Some(n) => Some(n@),
                None => None,
            },
    {
        self.unique_name.as_ref()
    }

    /// Takes note of the unique name that the bus gave to the connection. A
    /// name that is known never changes. Says whether the name was taken in.
    pub fn set_unique_name(&mut self, name: UniqueName) -> (set: bool)
        ensures
            final(self)@.wf(),
            set == (old(self)@.unique_name is None),
            final(self)@ == (MuxView {
                unique_name: if set {
                    Some(name@)
                } else {
                    old(self)@.unique_name
                },
                ..old(self)@
            }),
    {
        proof {
            use_type_invariant(&*self);
        }
        if self.unique_name.is_some() {
            return false;
        }
        let Multiplexer {
            next_serial,
            pending,
            streams,
            next_stream,
            bus,
            object_server,
            terminated,
            unique_name,
        } = self.take_state();
        *self = Multiplexer {
            next_serial,
            pending,
            streams,
            next_stream,
            bus,
            object_server,
            terminated,
            unique_name: Some(name),
        };
        true
    }

    /// Says what is to be done with the message `msg` that came in, and does
    /// to the state what that takes.
    ///
    /// A method return or an error that names the serial number of a call
    /// that waits is a reply to that call, which waits no more; any other
    /// one is forgotten. A signal is put into every stream that asks for it,
    /// and into no other. A method call goes to the object server, or is
    /// answered with an error where there is none. A message of another type
    /// is forgotten.
    pub fn dispatch(&mut self, msg: Arc<Message>) -> (res: Dispatch)
        ensures
            final(self)@.wf(),
            dispatched(old(self)@, msg, final(self)@, res),
    {
        proof {
            use_type_invariant(&*self);
        }
        let ghost before = self@;
        match msg.message_type() {
            Type::MethodReturn | Type::Error => {
                let serial = match msg.reply_serial() {
                    Some(serial) => serial,
                    None => {
                        return Dispatch::Dropped;
                    },
                };
                if self.cancel_call(serial) {
                    Dispatch::Reply(serial)
                } else {
                    Dispatch::Dropped
                }
            },
            Type::Signal => {
                let Multiplexer {
                    next_serial,
                    pending,
                    mut streams,
                    next_stream,
                    bus,
                    object_server,
                    terminated,
                    unique_name,
                } = self.take_state();
                let ghost old_streams = streams@;
                let n = streams.len();
                let mut count: usize = 0;
                let mut k: usize = 0;
                proof {
                    assert(before.streams == old_streams.map_values(|s: Subscription| s@));
                    assert forall|j: int| 0 <= j < n implies (#[trigger] old_streams[j])@.wf() by {
                        assert(before.streams[j].wf());
                    }
                }
                while k < n
                    invariant
                        k <= n,
                        count <= k,
                        n == streams@.len(),
                        n == old_streams.len(),
                        before.streams == old_streams.map_values(|s: Subscription| s@),
                        forall|j: int| 0 <= j < k ==> (#[trigger] streams@[j])@ == old_streams[j]@.delivered(msg),
                        forall|j: int| k <= j < n ==> #[trigger] streams@[j] == old_streams[j],
                        forall|j: int| 0 <= j < n ==> (#[trigger] streams@[j]).text_ok(),
                        forall|j: int| 0 <= j < n ==> (#[trigger] streams@[j])@.wf(),
                        forall|j: int| 0 <= j < n ==> (#[trigger] old_streams[j])@.wf(),
                        forall|j: int| 0 <= j < n ==> (#[trigger] old_streams[j]).text_ok(),
                        count == wanting(old_streams.map_values(|s: Subscription| s@), msg@, k as int),
                    decreases n - k,
                {
                    let ghost prev = streams@;
                    assert(before.streams[k as int] == old_streams[k as int]@);
                    let took = streams[k].deliver(&msg);
                    assert(streams@.len() == n);
                    assert forall|j: int| 0 <= j < n && j != k implies #[trigger] streams@[j]
                        == prev[j] by {}
                    if took {
                        count += 1;
                    }
                    k += 1;
                }
                proof {
                    let views = streams@.map_values(|s: Subscription| s@);
                    assert forall|j: int| 0 <= j < n implies (#[trigger] views[j]).id
                        == before.streams[j].id && views[j].wf() by {
                        assert(streams@[j]@ == old_streams[j]@.delivered(msg));
                        assert(before.streams[j] == old_streams[j]@);
                    }
                    assert forall|a: int, b: int| 0 <= a < b < n implies (#[trigger] views[a]).id
                        != (#[trigger] views[b]).id by {
                        assert(before.streams[a].id != before.streams[b].id);
                    }
                    assert forall|j: int| 0 <= j < n implies (#[trigger] views[j]).id
                        < next_stream by {
                        assert(before.streams[j].id < before.next_stream);
                    }
                }
                *self = Multiplexer {
                    next_serial,
                    pending,
                    streams,
                    next_stream,
                    bus,
                    object_server,
                    terminated,
                    unique_name,
                };
                assert(self@.streams =~= before.streams.map_values(
                    |s: StreamView| s.delivered(msg),
                ));
                Dispatch::Signal(count)
            },
            Type::MethodCall => {
                if self.object_server {
                    Dispatch::MethodCall
                } else {
                    Dispatch::UnknownMethod
                }
            },
            Type::Invalid => Dispatch::Dropped,
        }
    }

    /// Whether one of the streams has a rule with the text `text`.
    fn has_rule(streams: &Vec<Subscription>, text: &String) -> (found: bool)
        requires
            forall|i: int| 0 <= i < streams@.len() ==> (#[trigger] streams@[i]).text_ok(),
        ensures
            found == (exists|i: int|
                0 <= i < streams@.len() && (#[trigger] streams@[i])@.has_text(text@)),
    {
        let n = streams.len();
        let mut i: usize = 0;
        while i < n
            invariant
                i <= n,
                n == streams@.len(),
                forall|j: int| 0 <= j < n ==> (#[trigger] streams@[j]).text_ok(),
                forall|j: int| 0 <= j < i ==> !(#[trigger] streams@[j])@.has_text(text@),
            decreases n - i,
        {
            assert(streams@[i as int].text_ok());
            let same = match &streams[i].text {
                Some(t) => same_text(t, text),
                None => false,
            };
            if same {
                assert(streams@[i as int]@.has_text(text@));
                return true;
            }
            i += 1;
        }
        false
    }

    /// The place of the first stream with the number `id`, if there is one.
    fn find_stream(streams: &Vec<Subscription>, id: u64) -> (place: Option<usize>)
        ensures
            match place {
                Some(i) => i < streams@.len() && streams@[i as int]@.id == id && i == stream_place(
                    streams@.map_values(|s: Subscription| s@),
                    id,
                ),
                None => stream_place(streams@.map_values(|s: Subscription| s@), id)
                    == streams@.len() && forall|j: int|
                    0 <= j < streams@.len() ==> (#[trigger] streams@[j])@.id != id,
            },
    {
        let ghost views = streams@.map_values(|s: Subscription| s@);
        let n = streams.len();
        let mut i: usize = 0;
        assert(views.skip(0) =~= views);
        while i < n
            invariant
                i <= n,
                n == streams@.len(),
                views == streams@.map_values(|s: Subscription| s@),
                stream_place(views, id) == i + stream_place(views.skip(i as int), id),
                forall|j: int| 0 <= j < i ==> (#[trigger] streams@[j])@.id != id,
            decreases n - i,
        {
            let ghost rest = views.skip(i as int);
            assert(rest[0] == streams@[i as int]@);
            assert(rest.skip(1) =~= views.skip(i + 1));
            if streams[i].id == id {
                return Some(i);
            }
            i += 1;
        }
        assert(views.skip(n as int).len() == 0);
        None
    }

    /// Makes a stream for the messages that meet `rule`, or for all where
    /// there is no rule. As many messages as `max_queued` says wait in it at
    /// most, one at least, 64 where nothing is said.
    ///
    /// Gives the number of the stream and, where the peer is a bus and no
    /// stream has the same rule yet, the text of the rule: the bus is to be
    /// told of it with `AddMatch`.
    ///
    /// On a terminated connection this gives `Disconnected`, and after 2^64
    /// - 1 streams `InputOutput`; then nothing changes.
    pub fn subscribe(&mut self, rule: Option<MatchRule>, max_queued: Option<usize>) -> (res: Result<
        Subscribed,
        Error,
    >)
        ensures
            final(self)@.wf(),
            old(self)@.terminated ==> (res matches Err(e) && e is Disconnected) && final(self)@
                == old(self)@,
            !old(self)@.terminated && old(self)@.next_stream == u64::MAX ==> (res matches Err(e)
                && e is InputOutput) && final(self)@ == old(self)@,
            !old(self)@.terminated && old(self)@.next_stream < u64::MAX ==> {
                let view = match rule {
                    Some(r) => Some(r@),
                    None => None,
                };
                &&& res matches Ok(sub)
                &&& sub.id == old(self)@.next_stream
                &&& final(self)@ == (MuxView {
                    streams: old(self)@.streams.push(
                        StreamView {
                            id: sub.id,
                            rule: view,
                            queue: Seq::empty(),
                            cap: queue_cap(max_queued),
                            dropped: 0,
                        },
                    ),
                    next_stream: (sub.id + 1) as u64,
                    ..old(self)@
                })
                &&& match view {
                    Some(r) => if old(self)@.bus && !old(self)@.has_rule(rule_text(r)) {
                        sub.add_match matches Some(text) && text@ == rule_text(r)
                    } else {
                        sub.add_match is None
                    },
                    None => sub.add_match is None,
                }
            },
    {
        proof {
            use_type_invariant(&*self);
        }
        if self.terminated {
            return Err(Error::Disconnected);
        }
        if self.next_stream == u64::MAX {
            return Err(Error::InputOutput("too many streams".to_string()));
        }
        let ghost before = self@;
        let cap: usize = match max_queued {
            Some(n) => if n == 0 {
                1
            } else {
                n
            },
            None => DEFAULT_MAX_QUEUED,
        };
        let Multiplexer {
            next_serial,
            pending,
            mut streams,
            next_stream,
            bus,
            object_server,
            terminated,
            unique_name,
        } = self.take_state();
        let ghost old_streams = streams@;
        assert(before.streams == old_streams.map_values(|s: Subscription| s@));
        let text = match &rule {
            Some(r) => Some(r.to_string()),
            None => None,
        };
        let add_match = match &text {
            Some(t) => {
                let known = Self::has_rule(&streams, t);
                proof {
                    if known {
                        let i = choose|i: int|
                            0 <= i < old_streams.len() && (#[trigger] old_streams[i])@.has_text(t@);
                        assert(before.streams[i].has_text(t@));
                    } else {
                        assert forall|i: int| 0 <= i < before.streams.len() implies !(
                        #[trigger] before.streams[i]).has_text(t@) by {
                            assert(before.streams[i] == old_streams[i]@);
                        }
                    }
                }
                if bus && !known {
                    Some(t.clone())
                } else {
                    None
                }
            },
            None => None,
        };
        let id = next_stream;
        let stream = Subscription { id, rule, text, queue: VecDeque::new(), cap, dropped: 0 };
        let ghost view = stream@;
        streams.push(stream);
        proof {
            let views = streams@.map_values(|s: Subscription| s@);
            assert(views =~= before.streams.push(view));
            assert forall|j: int| 0 <= j < views.len() implies (#[trigger] views[j]).wf()
                && views[j].id < id + 1 by {
                if j < before.streams.len() {
                    assert(before.streams[j].wf());
                    assert(before.streams[j].id < before.next_stream);
                }
            }
            assert forall|a: int, b: int| 0 <= a < b < views.len() implies (#[trigger] views[a]).id
                != (#[trigger] views[b]).id by {
                if b < before.streams.len() {
                    assert(before.streams[a].id != before.streams[b].id);
                } else {
                    assert(before.streams[a].id < before.next_stream);
                }
            }
            assert forall|j: int| 0 <= j < streams@.len() implies (#[trigger] streams@[j]).text_ok() by {
                if j < old_streams.len() {
                    assert(old_streams[j].text_ok());
                }
            }
        }
        *self = Multiplexer {
            next_serial,
            pending,
            streams,
            next_stream: id + 1,
            bus,
            object_server,
            terminated,
            unique_name,
        };
        Ok(Subscribed { id, add_match })
    }

    /// Drops the stream with the number `id`, with the messages that wait in
    /// it.
    ///
    /// Gives nothing where there is no such stream, and nothing changes
    /// then. Else gives what is to be done: where the peer is a bus and no
    /// other stream has the rule of the dropped one, the bus is to be told
    /// with `RemoveMatch` and the text of the rule.
    pub fn unsubscribe(&mut self, id: u64) -> (res: Option<Unsubscribed>)
        ensures
            final(self)@.wf(),
            old(self)@.place_of(id) >= old(self)@.streams.len() ==> res is None && final(self)@
                == old(self)@,
            old(self)@.place_of(id) < old(self)@.streams.len() ==> {
                let place = old(self)@.place_of(id);
                let dropped = old(self)@.streams[place];
                &&& res matches Some(un)
                &&& dropped.id == id
                &&& final(self)@ == (MuxView {
                    streams: old(self)@.streams.remove(place),
                    ..old(self)@
                })
                &&& final(self)@.place_of(id) >= final(self)@.streams.len()
                &&& match dropped.rule {
                    Some(r) => if old(self)@.bus && !final(self)@.has_rule(rule_text(r)) {
                        un.remove_match matches Some(text) && text@ == rule_text(r)
                    } else {
                        un.remove_match is None
                    },
                    None => un.remove_match is None,
                }
            },
    {
        proof {
            use_type_invariant(&*self);
        }
        let ghost before = self@;
        let place = match Self::find_stream(&self.streams, id) {
            Some(place) => place,
            None => {
                return None;
            },
        };
        let Multiplexer {
            next_serial,
            pending,
            mut streams,
            next_stream,
            bus,
            object_server,
            terminated,
            unique_name,
        } = self.take_state();
        let ghost old_streams = streams@;
        assert(before.streams == old_streams.map_values(|s: Subscription| s@));
        let dropped = streams.remove(place);
        assert(dropped.text_ok());
        let ghost views = streams@.map_values(|s: Subscription| s@);
        proof {
            assert(views =~= before.streams.remove(place as int));
            assert forall|j: int| 0 <= j < views.len() implies (#[trigger] views[j]).wf()
                && views[j].id < next_stream && views[j].id != id by {
                let j2 = if j < place { j } else { j + 1 };
                assert(before.streams[j2].wf());
                assert(before.streams[j2].id < before.next_stream);
                if j2 < place {
                    assert(before.streams[j2].id != before.streams[place as int].id);
                } else {
                    assert(before.streams[place as int].id != before.streams[j2].id);
                }
            }
            assert forall|a: int, b: int| 0 <= a < b < views.len() implies (#[trigger] views[a]).id
                != (#[trigger] views[b]).id by {
                let a2 = if a < place { a } else { a + 1 };
                let b2 = if b < place { b } else { b + 1 };
                assert(before.streams[a2].id != before.streams[b2].id);
            }
            assert forall|j: int| 0 <= j < streams@.len() implies (#[trigger] streams@[j]).text_ok() by {
                let j2 = if j < place { j } else { j + 1 };
                assert(old_streams[j2].text_ok());
            }
            lemma_place_absent(views, id);
        }
        let Subscription { id: _, rule, text, queue, cap: _, dropped: _ } = dropped;
        let remove_match = match text {
            Some(t) => {
                let known = Self::has_rule(&streams, &t);
                proof {
                    if known {
                        let i = choose|i: int|
                            0 <= i < streams@.len() && (#[trigger] streams@[i])@.has_text(t@);
                        assert(views[i].has_text(t@));
                    } else {
                        assert forall|i: int| 0 <= i < views.len() implies !(#[trigger] views[i]).has_text(
                            t@,
                        ) by {
                            assert(views[i] == streams@[i]@);
                        }
                    }
                }
                if bus && !known {
                    Some(t)
                } else {
                    None
                }
            },
            None => None,
        };
        *self = Multiplexer {
            next_serial,
            pending,
            streams,
            next_stream,
            bus,
            object_server,
            terminated,
            unique_name,
        };
        Some(Unsubscribed { rule, remove_match, unread: queue.len() })
    }

    /// Gives the oldest message that waits in the stream with the number
    /// `id`, which leaves the stream. Where none waits, says whether more
    /// may come.
    pub fn poll_stream(&mut self, id: u64) -> (item: StreamItem)
        ensures
            final(self)@.wf(),
            old(self)@.place_of(id) >= old(self)@.streams.len() ==> item is Unknown && final(self)@
                == old(self)@,
            old(self)@.place_of(id) < old(self)@.streams.len() ==> {
                let place = old(self)@.place_of(id);
                let stream = old(self)@.streams[place];
                if stream.queue.len() > 0 {
                    &&& item matches StreamItem::Message(m)
                    &&& m == stream.queue[0]
                    &&& final(self)@ == (MuxView {
                        streams: old(self)@.streams.update(
                            place,
                            StreamView { queue: stream.queue.skip(1), ..stream },
                        ),
                        ..old(self)@
                    })
                } else {
                    &&& final(self)@ == old(self)@
                    &&& if old(self)@.terminated {
                        item is Closed
                    } else {
                        item is Empty
                    }
                }
            },
    {
        proof {
            use_type_invariant(&*self);
        }
        let ghost before = self@;
        let place = match Self::find_stream(&self.streams, id) {
            Some(place) => place,
            None => {
                return StreamItem::Unknown;
            },
        };
        if self.streams[place].queue.len() == 0 {
            return if self.terminated {
                StreamItem::Closed
            } else {
                StreamItem::Empty
            };
        }
        let Multiplexer {
            next_serial,
            pending,
            mut streams,
            next_stream,
            bus,
            object_server,
            terminated,
            unique_name,
        } = self.take_state();
        let ghost old_streams = streams@;
        assert(before.streams == old_streams.map_values(|s: Subscription| s@));
        let msg = streams[place].queue.pop_front();
        proof {
            let views = streams@.map_values(|s: Subscription| s@);
            let stream = before.streams[place as int];
            assert(streams@[place as int]@.queue =~= stream.queue.skip(1));
            assert(views =~= before.streams.update(
                place as int,
                StreamView { queue: stream.queue.skip(1), ..stream },
            ));
            assert forall|j: int| 0 <= j < views.len() implies (#[trigger] views[j]).wf()
                && views[j].id < next_stream && views[j].id == before.streams[j].id by {
                assert(before.streams[j].wf());
                assert(before.streams[j].id < before.next_stream);
            }
            assert forall|a: int, b: int| 0 <= a < b < views.len() implies (#[trigger] views[a]).id
                != (#[trigger] views[b]).id by {
                assert(before.streams[a].id != before.streams[b].id);
            }
            assert forall|j: int| 0 <= j < streams@.len() implies (#[trigger] streams@[j]).text_ok() by {
                assert(old_streams[j].text_ok());
            }
        }
        *self = Multiplexer {
            next_serial,
            pending,
            streams,
            next_stream,
            bus,
            object_server,
            terminated,
            unique_name,
        };
        match msg {
            Some(m) => StreamItem::Message(m),
            None => StreamItem::Empty,
        }
    }

    /// The rule of the stream with the number `id`, if there is such a
    /// stream and it has a rule.
    pub fn match_rule(&self, id: u64) -> (rule: Option<&MatchRule>)
        ensures
            match rule {
                Some(r) => self@.place_of(id) < self@.streams.len() && self@.streams[self@.place_of(
                    id,
                )].rule == Some(r@),
                None => self@.place_of(id) >= self@.streams.len() || self@.streams[self@.place_of(
                    id,
                )].rule is None,
            },
    {
        match Self::find_stream(&self.streams, id) {
            Some(place) => self.streams[place].rule.as_ref(),
            None => None,
        }
    }

    /// The number of messages that were dropped from the stream with the
    /// number `id` because too many waited, if there is such a stream.
    pub fn dropped(&self, id: u64) -> (count: Option<u64>)
        ensures
            match count {
                Some(n) => self@.place_of(id) < self@.streams.len() && n
                    == self@.streams[self@.place_of(id)].dropped,
                None => self@.place_of(id) >= self@.streams.len(),
            },
    {
        match Self::find_stream(&self.streams, id) {
            Some(place) => Some(self.streams[place].dropped),
            None => None,
        }
    }

    /// The number of streams.
    pub fn stream_count(&self) -> (n: usize)
        ensures
            n == self@.streams.len(),
    {
        self.streams.len()
    }
}

} // verus!

//! Streams of messages: what a subscriber holds.

use vstd::prelude::*;
use crate::connection::mux::{
    Multiplexer, MuxView, StreamItem, StreamView, Subscribed, Unsubscribed,
};
use crate::error::Error;
use crate::match_rule::{rule_text, MatchRule, MatchRuleView};
use crate::message::codec::Message;

verus! {

/// What a stream says, as plain values.
pub struct MessageStreamView {
    /// The number that names the stream in the multiplexer of its
    /// connection.
    pub id: u64,
    /// The rule that the messages of the stream meet, if there is one.
    pub rule: Option<MatchRuleView>,
}

/// A stream of the messages that come in on a connection, or of those among
/// them that meet a match rule.
///
/// The messages wait in the multiplexer of the connection, under the number
/// of the stream. Dropping the stream takes a round trip to the bus where
/// its rule has to be taken back: see [`MessageStream::async_drop`].
#[derive(Debug)]
pub struct MessageStream {
    id: u64,
    rule: Option<MatchRule>,
}

impl View for MessageStream {
    type V = MessageStreamView;

    closed spec fn view(&self) -> MessageStreamView {
        MessageStreamView {
            id: self.id,
            rule: match self.rule {
                Some(r) => Some(r@),
                None => None,
            },
        }
    }
}

impl MessageStream {
    /// Create a message stream for the given match rule, or for every
    /// message where none is given, in the multiplexer `mux`.
    ///
    /// Gives the stream and, where the bus has to be told of the rule, the
    /// text of the rule for `AddMatch`. See [`Multiplexer::subscribe`].
    pub fn for_match_rule(
        rule: Option<MatchRule>,
        mux: &mut Multiplexer,
        max_queued: Option<usize>,
    ) -> (res: Result<(MessageStream, Option<String>), Error>)
        ensures
            final(mux)@.wf(),
            old(mux)@.terminated ==> (res matches Err(e) && e is Disconnected) && final(mux)@
                == old(mux)@,
            !old(mux)@.terminated && old(mux)@.next_stream == u64::MAX ==> (res matches Err(e)
                && e is InputOutput) && final(mux)@ == old(mux)@,
            !old(mux)@.terminated && old(mux)@.next_stream < u64::MAX ==> {
                let view = match rule {
                    Some(r) => Some(r@),
                    None => None,
                };
                &&& res matches Ok((stream, add_match))
                &&& stream@ == (MessageStreamView { id: old(mux)@.next_stream, rule: view })
                &&& final(mux)@ == (MuxView {
                    streams: old(mux)@.streams.push(
                        StreamView {
                            id: stream@.id,
                            rule: view,
                            queue: Seq::empty(),
                            cap: crate::connection::mux::queue_cap(max_queued),
                            dropped: 0,
                        },
                    ),
                    next_stream: (stream@.id + 1) as u64,
                    ..old(mux)@
                })
                &&& match view {
                    Some(r) => if old(mux)@.bus && !old(mux)@.has_rule(rule_text(r)) {
                        add_match matches Some(text) && text@ == rule_text(r)
                    } else {
                        add_match is None
                    },
                    None => add_match is None,
                }
            },
    {
        let copy = match &rule {
            Some(r) => Some(r.clone()),
            None => None,
        };
        match mux.subscribe(rule, max_queued) {
            Ok(Subscribed { id, add_match }) => Ok((MessageStream { id, rule: copy }, add_match)),
            Err(e) => Err(e),
        }
    }

    /// The number that names the stream in the multiplexer.
    pub fn id(&self) -> (id: u64)
        ensures
            id == self@.id,
    {
        self.id
    }

    /// The associated match rule, if any.
    pub fn match_rule(&self) -> (rule: Option<&MatchRule>)
        ensures
            self@.rule == match rule {
                Some(r) => Some(r@),
                None => None,
            },
    {
        self.rule.as_ref()
    }

    /// The next message of the stream, if one waits in the multiplexer
    /// `mux`: see [`Multiplexer::poll_stream`].
    pub fn poll_next(&self, mux: &mut Multiplexer) -> (item: StreamItem)
        ensures
            final(mux)@.wf(),
            old(mux)@.place_of(self@.id) >= old(mux)@.streams.len() ==> item is Unknown && final(mux)@ == old(mux)@,
            old(mux)@.place_of(self@.id) < old(mux)@.streams.len() ==> {
                let place = old(mux)@.place_of(self@.id);
                let stream = old(mux)@.streams[place];
                if stream.queue.len() > 0 {
                    &&& item matches StreamItem::Message(m)
                    &&& m == stream.queue[0]
                    &&& final(mux)@ == (MuxView {
                        streams: old(mux)@.streams.update(
                            place,
                            StreamView { queue: stream.queue.skip(1), ..stream },
                        ),
                        ..old(mux)@
                    })
                } else {
                    &&& final(mux)@ == old(mux)@
                    &&& if old(mux)@.terminated {
                        item is Closed
                    } else {
                        item is Empty
                    }
                }
            },
    {
        mux.poll_stream(self.id)
    }

    /// Drops the stream: takes it out of the multiplexer `mux` and says what
    /// is left to do. Where the bus has to be told that the rule of the
    /// stream is no longer wanted, the drop is complete only once the bus
    /// has answered the `RemoveMatch` call. See [`Multiplexer::unsubscribe`].
    pub fn async_drop(self, mux: &mut Multiplexer) -> (res: Option<Unsubscribed>)
        ensures
            final(mux)@.wf(),
            old(mux)@.place_of(self@.id) >= old(mux)@.streams.len() ==> res is None && final(mux)@
                == old(mux)@,
            old(mux)@.place_of(self@.id) < old(mux)@.streams.len() ==> {
                let place = old(mux)@.place_of(self@.id);
                let dropped = old(mux)@.streams[place];
                &&& res matches Some(un)
                &&& final(mux)@ == (MuxView {
                    streams: old(mux)@.streams.remove(place),
                    ..old(mux)@
                })
                &&& final(mux)@.place_of(self@.id) >= final(mux)@.streams.len()
                &&& match dropped.rule {
                    Some(r) => if old(mux)@.bus && !final(mux)@.has_rule(rule_text(r)) {
                        un.remove_match matches Some(text) && text@ == rule_text(r)
                    } else {
                        un.remove_match is None
                    },
                    None => un.remove_match is None,
                }
            },
    {
        mux.unsubscribe(self.id)
    }
}

} // verus!

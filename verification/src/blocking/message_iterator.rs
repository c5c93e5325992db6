use vstd::prelude::*;
use crate::connection::mux::{Multiplexer, MuxView, StreamItem, StreamView, Unsubscribed};
use crate::error::Error;
use crate::match_rule::{rule_text, MatchRule};
use crate::message_stream::{MessageStream, MessageStreamView};

verus! {

/// A blocking wrapper of [`MessageStream`].
///
/// Just like a [`MessageStream`] must be continuously polled, you must
/// continuously iterate over this type until it's consumed or dropped.
#[derive(Debug)]
pub struct MessageIterator {
    // Wrapped in an `Option` so that whoever drops the iterator can take the
    // stream out and drive its drop to completion, which deregisters any
    // associated match rule before the iterator is gone.
    azync: Option<MessageStream>,
}

impl View for MessageIterator {
    type V = MessageStreamView;

    closed spec fn view(&self) -> MessageStreamView {
        match self.azync {
            Some(stream) => stream@,
            None => MessageStreamView { id: 0, rule: None },
        }
    }
}

impl MessageIterator {
    /// An iterator always holds its stream: only taking the iterator apart
    /// takes the stream out.
    #[verifier::type_invariant]
    spec fn inv(self) -> bool {
        self.azync is Some
    }

    /// Get a reference to the underlying async message stream.
    pub fn inner(&self) -> (stream: &MessageStream)
        ensures
            stream@ == self@,
    {
        proof {
            use_type_invariant(self);
        }
        match &self.azync {
            Some(stream) => stream,
            None => vstd::pervasive::unreached(),
        }
    }

    /// The iterator over the messages of `stream`.
    pub fn new(stream: MessageStream) -> (iter: MessageIterator)
        ensures
            iter@ == stream@,
    {
        MessageIterator { azync: Some(stream) }
    }

    /// Get the underlying async message stream, consuming `self`.
    pub fn into_inner(self) -> (stream: MessageStream)
        ensures
            stream@ == self@,
    {
        proof {
            use_type_invariant(&self);
        }
        match self.azync {
            Some(stream) => stream,
            None => vstd::pervasive::unreached(),
        }
    }

    /// Create a message iterator for the given match rule.
    ///
    /// This is a wrapper around [`MessageStream::for_match_rule`]. Unlike the
    /// underlying `MessageStream`, the match rule is immediately
    /// deregistered when the iterator is dropped with [`MessageIterator::close`].
    pub fn for_match_rule(rule: MatchRule, mux: &mut Multiplexer, max_queued: Option<usize>) -> (res:
        Result<(MessageIterator, Option<String>), Error>)
        ensures
            final(mux)@.wf(),
            old(mux)@.terminated ==> (res matches Err(e) && e is Disconnected) && final(mux)@
                == old(mux)@,
            !old(mux)@.terminated && old(mux)@.next_stream == u64::MAX ==> (res matches Err(e)
                && e is InputOutput) && final(mux)@ == old(mux)@,
            !old(mux)@.terminated && old(mux)@.next_stream < u64::MAX ==> {
                &&& res matches Ok((iter, add_match))
                &&& iter@ == (MessageStreamView { id: old(mux)@.next_stream, rule: Some(rule@) })
                &&& final(mux)@ == (MuxView {
                    streams: old(mux)@.streams.push(
                        StreamView {
                            id: iter@.id,
                            rule: Some(rule@),
                            queue: Seq::empty(),
                            cap: crate::connection::mux::queue_cap(max_queued),
                            dropped: 0,
                        },
                    ),
                    next_stream: (iter@.id + 1) as u64,
                    ..old(mux)@
                })
                &&& if old(mux)@.bus && !old(mux)@.has_rule(rule_text(rule@)) {
                    add_match matches Some(text) && text@ == rule_text(rule@)
                } else {
                    add_match is None
                }
            },
    {
        match MessageStream::for_match_rule(Some(rule), mux, max_queued) {
            Ok((stream, add_match)) => Ok((MessageIterator { azync: Some(stream) }, add_match)),
            Err(e) => Err(e),
        }
    }

    /// The associated match rule, if any.
    pub fn match_rule(&self) -> (rule: Option<&MatchRule>)
        ensures
            self@.rule == match rule {
                Some(r) => Some(r@),
                None => None,
            },
    {
        self.inner().match_rule()
    }

    /// The next message, if one waits in the multiplexer `mux`: whoever
    /// iterates waits and asks again while the stream is empty, and stops
    /// when it is closed.
    pub fn next(&mut self, mux: &mut Multiplexer) -> (item: StreamItem)
        ensures
            final(self)@ == old(self)@,
            final(mux)@.wf(),
            old(mux)@.place_of(old(self)@.id) >= old(mux)@.streams.len() ==> item is Unknown
                && final(mux)@ == old(mux)@,
            old(mux)@.place_of(old(self)@.id) < old(mux)@.streams.len() ==> {
                let place = old(mux)@.place_of(old(self)@.id);
                let stream = old(mux)@.streams[place];
                if stream.queue.len() > 0 {
                    &&& item matches StreamItem::Message(m)
                    &&& m == stream.queue[0]
                    &&& final(mux)@ == (MuxView {
                        streams: old(mux)@.streams.update(
                            place,
                            StreamView { queue: stream.queue.skip(1), ..stream },
                        ),
                        ..old(mux)@
                    })
                } else {
                    &&& final(mux)@ == old(mux)@
                    &&& if old(mux)@.terminated {
                        item is Closed
                    } else {
                        item is Empty
                    }
                }
            },
    {
        self.inner().poll_next(mux)
    }

    /// Drops the iterator and its stream: see [`MessageStream::async_drop`].
    /// Whoever drops the iterator makes the `RemoveMatch` call that this
    /// asks for, and waits for its answer, before the iterator counts as
    /// gone.
    pub fn close(self, mux: &mut Multiplexer) -> (res: Option<Unsubscribed>)
        ensures
            final(mux)@.wf(),
            old(mux)@.place_of(self@.id) >= old(mux)@.streams.len() ==> res is None && final(mux)@
                == old(mux)@,
            old(mux)@.place_of(self@.id) < old(mux)@.streams.len() ==> {
                let place = old(mux)@.place_of(self@.id);
                let dropped = old(mux)@.streams[place];
                &&& res matches Some(un)
                &&& final(mux)@ == (MuxView {
                    streams: old(mux)@.streams.remove(place),
                    ..old(mux)@
                })
                &&& match dropped.rule {
                    Some(r) => if old(mux)@.bus && !final(mux)@.has_rule(rule_text(r)) {
                        un.remove_match matches Some(text) && text@ == rule_text(r)
                    } else {
                        un.remove_match is None
                    },
                    None => un.remove_match is None,
                }
            },
    {
        self.into_inner().async_drop(mux)
    }
}

} // verus!

//! The frame decoder: byte chunks in, completion events out.
//!
//! The decoder keeps the bytes that do not yet form a complete line. Each complete line
//! is decoded on its own, so where the chunks are cut makes no difference to what comes
//! out: [`lemma_feed_concat`] and [`lemma_chunking_is_irrelevant`] state it.

use vstd::prelude::*;
use vstd::slice::*;

use crate::error::{MalformedChunkError, StreamError, StreamErrorView};
use crate::frame::{
    copy_bytes, data_prefix, done_marker, frame_of, is_done_payload, payload_of,
    CompletionDeltaEvent, Frame, FrameView, LINE_FEED, SPACE,
};

verus! {

/// How far a stream has come.
pub enum StreamEnd {
    /// Neither the done marker nor a malformed chunk has been seen.
    Open,
    /// The done marker has been seen.
    Done,
    /// A malformed chunk has been seen; this is its payload.
    Malformed(Seq<u8>),
}

/// The decoder as specifications see it.
pub struct DecoderView {
    /// The bytes received that no frame has been made of yet.
    pub pending: Seq<u8>,
    pub end: StreamEnd,
}

/// What one pull from the decoder gives.
pub enum DecodedView {
    /// No complete line is at hand: more bytes are needed.
    Pending,
    Event(Seq<char>),
    Done,
    Malformed(Seq<u8>),
}

/// The index of the first line feed of `bytes` at or after `from`, or the length of
/// `bytes` where there is none.
pub open spec fn line_end(bytes: Seq<u8>, from: int) -> int
    decreases bytes.len() - from,
{
    if from < 0 || from >= bytes.len() {
        bytes.len() as int
    } else if bytes[from] == LINE_FEED {
        from
    } else {
        line_end(bytes, from + 1)
    }
}

/// The concatenation of `chunks`, in order.
pub open spec fn concat(chunks: Seq<Seq<u8>>) -> Seq<u8>
    decreases chunks.len(),
{
    if chunks.len() == 0 {
        Seq::empty()
    } else {
        concat(chunks.drop_last()) + chunks.last()
    }
}

impl DecoderView {
    /// A decoder that has received nothing.
    pub open spec fn start() -> DecoderView {
        DecoderView { pending: Seq::empty(), end: StreamEnd::Open }
    }

    /// A closed decoder: it holds no bytes and stays as it is.
    pub open spec fn closed(end: StreamEnd) -> DecoderView {
        DecoderView { pending: Seq::empty(), end }
    }

    /// The decoder without the bytes that are pending.
    pub open spec fn discard(self) -> DecoderView {
        DecoderView { pending: Seq::empty(), end: self.end }
    }

    /// The decoder after `chunk` has arrived. A closed decoder drops it.
    pub open spec fn push(self, chunk: Seq<u8>) -> DecoderView {
        match self.end {
            StreamEnd::Open => DecoderView { pending: self.pending + chunk, end: StreamEnd::Open },
            _ => self,
        }
    }

    /// One pull: the decoder afterwards, and what came out. Lines that are no data lines
    /// are passed over. The first complete data line gives an event, the done signal or
    /// an error; the last two close the decoder and discard what is pending.
    pub open spec fn poll(self) -> (DecoderView, DecodedView)
        decreases self.pending.len(),
    {
        match self.end {
            StreamEnd::Done => (self, DecodedView::Done),
            StreamEnd::Malformed(raw) => (self, DecodedView::Malformed(raw)),
            StreamEnd::Open => {
                let cut = line_end(self.pending, 0);
                if 0 <= cut < self.pending.len() {
                    let line = self.pending.subrange(0, cut);
                    let rest = DecoderView {
                        pending: self.pending.subrange(cut + 1, self.pending.len() as int),
                        end: StreamEnd::Open,
                    };
                    match frame_of(line) {
                        FrameView::Noise => rest.poll(),
                        FrameView::Delta(text) => (rest, DecodedView::Event(text)),
                        FrameView::Done => (
                            DecoderView::closed(StreamEnd::Done),
                            DecodedView::Done,
                        ),
                        FrameView::Malformed(raw) => (
                            DecoderView::closed(StreamEnd::Malformed(raw)),
                            DecodedView::Malformed(raw),
                        ),
                    }
                } else {
                    (self, DecodedView::Pending)
                }
            },
        }
    }

    /// Pulls until no event comes: the decoder afterwards, and the events in order.
    pub open spec fn drain(self) -> (DecoderView, Seq<Seq<char>>)
        decreases self.pending.len(),
    {
        let cut = line_end(self.pending, 0);
        if self.end is Open && 0 <= cut < self.pending.len() {
            let line = self.pending.subrange(0, cut);
            let rest = DecoderView {
                pending: self.pending.subrange(cut + 1, self.pending.len() as int),
                end: StreamEnd::Open,
            };
            match frame_of(line) {
                FrameView::Noise => rest.drain(),
                FrameView::Delta(text) => (rest.drain().0, seq![text] + rest.drain().1),
                FrameView::Done => (DecoderView::closed(StreamEnd::Done), Seq::empty()),
                FrameView::Malformed(raw) => (
                    DecoderView::closed(StreamEnd::Malformed(raw)),
                    Seq::empty(),
                ),
            }
        } else {
            (self, Seq::empty())
        }
    }

    /// Receives `chunk` and pulls until no event comes.
    pub open spec fn feed(self, chunk: Seq<u8>) -> (DecoderView, Seq<Seq<char>>) {
        self.push(chunk).drain()
    }

    /// Receives each of `chunks` in turn, pulling after each until no event comes.
    pub open spec fn feed_all(self, chunks: Seq<Seq<u8>>) -> (DecoderView, Seq<Seq<char>>)
        decreases chunks.len(),
    {
        if chunks.len() == 0 {
            (self, Seq::empty())
        } else {
            let (before, head) = self.feed_all(chunks.drop_last());
            let (after, tail) = before.feed(chunks.last());
            (after, head + tail)
        }
    }
}

/// Where [`line_end`] points: at the first line feed at or after `from`.
pub proof fn lemma_line_end(bytes: Seq<u8>, from: int)
    requires
        0 <= from <= bytes.len(),
    ensures
        from <= line_end(bytes, from) <= bytes.len(),
        line_end(bytes, from) < bytes.len() ==> bytes[line_end(bytes, from)] == LINE_FEED,
        forall|k: int| from <= k < line_end(bytes, from) ==> bytes[k] != LINE_FEED,
    decreases bytes.len() - from,
{
    if from < bytes.len() && bytes[from] != LINE_FEED {
        lemma_line_end(bytes, from + 1);
    }
}

/// An index with no line feed before it, which holds a line feed or is the length, is
/// where [`line_end`] points.
pub proof fn lemma_line_end_is(bytes: Seq<u8>, from: int, at: int)
    requires
        0 <= from <= at <= bytes.len(),
        at < bytes.len() ==> bytes[at] == LINE_FEED,
        forall|k: int| from <= k < at ==> bytes[k] != LINE_FEED,
    ensures
        line_end(bytes, from) == at,
    decreases at - from,
{
    if from < at {
        lemma_line_end_is(bytes, from + 1, at);
    }
}

/// Bytes that arrive later do not move the end of a line that is complete.
pub proof fn lemma_line_end_push(bytes: Seq<u8>, more: Seq<u8>)
    requires
        line_end(bytes, 0) < bytes.len(),
    ensures
        line_end(bytes + more, 0) == line_end(bytes, 0),
{
    lemma_line_end(bytes, 0);
    lemma_line_end_is(bytes + more, 0, line_end(bytes, 0));
}

/// A pull never adds to what is pending, and one that gives an event takes from it.
pub proof fn lemma_poll_shrinks(decoder: DecoderView)
    ensures
        decoder.poll().0.pending.len() <= decoder.pending.len(),
        decoder.poll().1 is Event ==> decoder.poll().0.pending.len() < decoder.pending.len(),
        decoder.poll().1 is Event || decoder.poll().1 is Pending ==> decoder.poll().0.end is Open,
    decreases decoder.pending.len(),
{
    let cut = line_end(decoder.pending, 0);
    if decoder.end is Open && 0 <= cut < decoder.pending.len() {
        let line = decoder.pending.subrange(0, cut);
        let rest = DecoderView {
            pending: decoder.pending.subrange(cut + 1, decoder.pending.len() as int),
            end: StreamEnd::Open,
        };
        if frame_of(line) is Noise {
            lemma_poll_shrinks(rest);
        }
    }
}

/// Draining is pulling: an event that a pull gives is the first that draining gives,
/// and draining goes on from where the pull left the decoder.
pub proof fn lemma_drain_by_poll(decoder: DecoderView)
    ensures
        decoder.drain() == match decoder.poll().1 {
            DecodedView::Event(text) => (
                decoder.poll().0.drain().0,
                seq![text] + decoder.poll().0.drain().1,
            ),
            _ => (decoder.poll().0, Seq::empty()),
        },
    decreases decoder.pending.len(),
{
    let cut = line_end(decoder.pending, 0);
    if decoder.end is Open && 0 <= cut < decoder.pending.len() {
        let line = decoder.pending.subrange(0, cut);
        let rest = DecoderView {
            pending: decoder.pending.subrange(cut + 1, decoder.pending.len() as int),
            end: StreamEnd::Open,
        };
        if frame_of(line) is Noise {
            lemma_drain_by_poll(rest);
        }
    }
}

/// Draining a decoder and then feeding it `chunk` gives what draining it with `chunk`
/// already received gives.
pub proof fn lemma_drain_push(decoder: DecoderView, chunk: Seq<u8>)
    ensures
        decoder.push(chunk).drain() == (
            decoder.drain().0.feed(chunk).0,
            decoder.drain().1 + decoder.drain().0.feed(chunk).1,
        ),
    decreases decoder.pending.len(),
{
    let cut = line_end(decoder.pending, 0);
    if decoder.end is Open && 0 <= cut < decoder.pending.len() {
        let line = decoder.pending.subrange(0, cut);
        let rest = DecoderView {
            pending: decoder.pending.subrange(cut + 1, decoder.pending.len() as int),
            end: StreamEnd::Open,
        };
        let pushed = decoder.push(chunk);
        lemma_line_end_push(decoder.pending, chunk);
        assert(pushed.pending.subrange(0, cut) =~= line);
        assert(pushed.pending.subrange(cut + 1, pushed.pending.len() as int) =~= rest.push(
            chunk,
        ).pending);
        lemma_drain_push(rest, chunk);
        match frame_of(line) {
            FrameView::Delta(text) => {
                assert(seq![text] + (rest.drain().1 + rest.drain().0.feed(chunk).1) =~= (seq![text]
                    + rest.drain().1) + rest.drain().0.feed(chunk).1);
            },
            FrameView::Noise => {},
            _ => {
                assert(Seq::<Seq<char>>::empty() + Seq::<Seq<char>>::empty() =~= Seq::<
                    Seq<char>,
                >::empty());
            },
        }
    } else {
        assert(Seq::<Seq<char>>::empty() + decoder.feed(chunk).1 =~= decoder.feed(chunk).1);
    }
}

/// No byte of a partial line is lost: a decoder that is open after draining holds
/// exactly what followed the last line feed that it had received.
pub proof fn lemma_partial_line_is_kept(decoder: DecoderView)
    requires
        decoder.drain().0.end is Open,
    ensures
        ({
            let kept = decoder.drain().0.pending;
            let from = decoder.pending.len() - kept.len();
            &&& 0 <= from
            &&& kept == decoder.pending.subrange(from, decoder.pending.len() as int)
            &&& forall|k: int| 0 <= k < kept.len() ==> kept[k] != LINE_FEED
            &&& from == 0 || decoder.pending[from - 1] == LINE_FEED
            &&& from == 0 ==> decoder.drain().1 == Seq::<Seq<char>>::empty()
        }),
    decreases decoder.pending.len(),
{
    let cut = line_end(decoder.pending, 0);
    lemma_line_end(decoder.pending, 0);
    if decoder.end is Open && 0 <= cut < decoder.pending.len() {
        let rest = DecoderView {
            pending: decoder.pending.subrange(cut + 1, decoder.pending.len() as int),
            end: StreamEnd::Open,
        };
        lemma_partial_line_is_kept(rest);
        let kept = rest.drain().0.pending;
        let from = decoder.pending.len() - kept.len();
        assert(kept =~= decoder.pending.subrange(from, decoder.pending.len() as int));
    } else {
        assert(decoder.pending =~= decoder.pending.subrange(0, decoder.pending.len() as int));
    }
}

/// Feeding two chunks one after the other gives the events, and leaves the decoder, as
/// feeding their concatenation does.
pub proof fn lemma_feed_concat(decoder: DecoderView, first: Seq<u8>, second: Seq<u8>)
    ensures
        decoder.feed(first + second) == (
            decoder.feed(first).0.feed(second).0,
            decoder.feed(first).1 + decoder.feed(first).0.feed(second).1,
        ),
{
    assert(decoder.push(first + second) == decoder.push(first).push(second)) by {
        assert(decoder.pending + (first + second) =~= (decoder.pending + first) + second);
    }
    lemma_drain_push(decoder.push(first), second);
}

/// However a body is cut into chunks, a decoder that starts empty gives the same events
/// in the same order, and ends in the same state, as for the body in one piece.
pub proof fn lemma_chunking_is_irrelevant(chunks: Seq<Seq<u8>>)
    ensures
        DecoderView::start().feed_all(chunks) == DecoderView::start().feed(concat(chunks)),
        DecoderView::start().feed_all(chunks) == DecoderView::start().feed_all(
            seq![concat(chunks)],
        ),
    decreases chunks.len(),
{
    let start = DecoderView::start();
    if chunks.len() == 0 {
        assert(start.push(concat(chunks)) == start) by {
            assert(start.pending + concat(chunks) =~= start.pending);
        }
    } else {
        lemma_chunking_is_irrelevant(chunks.drop_last());
        lemma_feed_concat(start, concat(chunks.drop_last()), chunks.last());
    }
    let whole = seq![concat(chunks)];
    assert(whole.drop_last() =~= Seq::<Seq<u8>>::empty());
    assert(start.feed_all(whole.drop_last()) == (start, Seq::<Seq<char>>::empty()));
    assert(Seq::<Seq<char>>::empty() + start.feed(concat(chunks)).1 =~= start.feed(
        concat(chunks),
    ).1);
}

/// The bytes of the line `data: [DONE]`, line feed included.
pub open spec fn done_line() -> Seq<u8> {
    data_prefix() + seq![SPACE] + done_marker() + seq![LINE_FEED]
}

/// A closed decoder stays as it is and gives no event, whatever arrives.
pub proof fn lemma_closed_is_terminal(decoder: DecoderView, chunk: Seq<u8>)
    requires
        !(decoder.end is Open),
    ensures
        decoder.push(chunk) == decoder,
        decoder.poll().0 == decoder,
        !(decoder.poll().1 is Event),
        !(decoder.poll().1 is Pending),
        decoder.feed(chunk) == (decoder, Seq::<Seq<char>>::empty()),
{
}

/// Once a pull has closed the decoder, it holds nothing and every later pull gives what
/// that pull gave.
pub proof fn lemma_poll_closes_for_good(decoder: DecoderView)
    requires
        decoder.poll().1 is Done || decoder.poll().1 is Malformed,
    ensures
        !(decoder.poll().0.end is Open),
        decoder.end is Open ==> decoder.poll().0.pending == Seq::<u8>::empty(),
        decoder.poll().0.poll() == decoder.poll(),
    decreases decoder.pending.len(),
{
    let cut = line_end(decoder.pending, 0);
    if decoder.end is Open && 0 <= cut < decoder.pending.len() {
        let line = decoder.pending.subrange(0, cut);
        let rest = DecoderView {
            pending: decoder.pending.subrange(cut + 1, decoder.pending.len() as int),
            end: StreamEnd::Open,
        };
        if frame_of(line) is Noise {
            lemma_poll_closes_for_good(rest);
        }
    }
}

/// The line `data: [DONE]` ends the stream: where a body `head` of whole lines has left
/// the decoder open, the same body with that line behind it gives the events of `head`
/// and no more, and ends without an error, whatever follows the line.
pub proof fn lemma_done_line_ends_stream(head: Seq<u8>, tail: Seq<u8>)
    requires
        DecoderView::start().feed(head).0 == DecoderView::start(),
    ensures
        DecoderView::start().feed(head + done_line() + tail) == (
            DecoderView::closed(StreamEnd::Done),
            DecoderView::start().feed(head).1,
        ),
        end_of_body(DecoderView::start().feed(head + done_line() + tail).0.end) is Ok,
{
    let start = DecoderView::start();
    let rest = done_line() + tail;
    let line = data_prefix() + seq![SPACE] + done_marker();
    assert(head + done_line() + tail =~= head + rest);
    lemma_feed_concat(start, head, rest);
    assert(start.push(rest).pending =~= rest);
    assert(rest.len() >= 13);
    assert(rest[12] == LINE_FEED);
    assert forall|k: int| 0 <= k < 12 implies rest[k] != LINE_FEED by {
        assert(rest[k] == line[k]);
    }
    lemma_line_end_is(rest, 0, 12);
    assert(rest.subrange(0, 12) =~= line);
    assert(line.subrange(0, 5) =~= data_prefix());
    assert(line[5] == SPACE);
    assert(line.subrange(6, 12) =~= done_marker());
    assert(done_marker().subrange(0, 6) =~= done_marker());
    assert(payload_of(line) == Some(done_marker()));
    assert(is_done_payload(done_marker()));
    assert(frame_of(line) is Done);
    assert(start.feed(head).1 + Seq::<Seq<char>>::empty() =~= start.feed(head).1);
}

/// How far a stream has come.
enum Status {
    Open,
    Done,
    Failed(MalformedChunkError),
}

/// The state of one stream's decoder.
pub struct StreamState {
    /// The bytes received since the buffer was last emptied.
    pending_bytes: Vec<u8>,
    /// How many of them have been decoded.
    consumed: usize,
    status: Status,
}

/// What one pull from the decoder gives.
#[derive(Debug, PartialEq, Eq)]
pub enum Decoded {
    /// No complete line is at hand: more bytes are needed.
    Pending,
    Event(CompletionDeltaEvent),
    Done,
    Malformed(MalformedChunkError),
}

impl View for Decoded {
    type V = DecodedView;

    open spec fn view(&self) -> DecodedView {
        match self {
            Decoded::Pending => DecodedView::Pending,
            Decoded::Event(event) => DecodedView::Event(event@),
            Decoded::Done => DecodedView::Done,
            Decoded::Malformed(error) => DecodedView::Malformed(error@),
        }
    }
}

/// The texts of `events`, in order.
pub open spec fn fragments(events: Seq<CompletionDeltaEvent>) -> Seq<Seq<char>> {
    Seq::new(events.len(), |i: int| events[i]@)
}

/// The bytes of each of `chunks`, in order.
pub open spec fn chunk_bytes(chunks: Seq<Vec<u8>>) -> Seq<Seq<u8>> {
    Seq::new(chunks.len(), |i: int| chunks[i]@)
}

/// What a whole body gave: the events in order, and how it ended.
#[derive(Debug, PartialEq, Eq)]
pub struct Transcript {
    pub events: Vec<CompletionDeltaEvent>,
    pub outcome: Result<(), StreamError>,
}

/// What the end of the body means for a decoder: nothing after the done marker, an error
/// otherwise.
pub open spec fn end_of_body(end: StreamEnd) -> Result<(), StreamErrorView> {
    match end {
        StreamEnd::Open => Err(StreamErrorView::TruncatedStream),
        StreamEnd::Done => Ok(()),
        StreamEnd::Malformed(raw) => Err(StreamErrorView::MalformedChunk(raw)),
    }
}

impl View for StreamState {
    type V = DecoderView;

    closed spec fn view(&self) -> DecoderView {
        DecoderView {
            pending: self.pending_bytes@.subrange(
                self.consumed as int,
                self.pending_bytes@.len() as int,
            ),
            end: match self.status {
                Status::Open => StreamEnd::Open,
                Status::Done => StreamEnd::Done,
                Status::Failed(error) => StreamEnd::Malformed(error@),
            },
        }
    }
}

impl StreamState {
    /// The decoder's invariant: what has been decoded lies within what was received.
    pub closed spec fn wf(&self) -> bool {
        self.consumed <= self.pending_bytes@.len()
    }

    /// A decoder that has received nothing.
    pub fn new() -> (state: StreamState)
        ensures
            state.wf(),
            state@ == DecoderView::start(),
    {
        let state = StreamState { pending_bytes: Vec::new(), consumed: 0, status: Status::Open };
        assert(state@.pending =~= Seq::<u8>::empty());
        state
    }

    /// Whether the done marker or a malformed chunk has been seen.
    pub fn is_closed(&self) -> (closed: bool)
        ensures
            closed == !(self@.end is Open),
    {
        match self.status {
            Status::Open => false,
            _ => true,
        }
    }

    /// How many bytes are waiting for the rest of their line.
    pub fn pending_len(&self) -> (len: usize)
        requires
            self.wf(),
        ensures
            len == self@.pending.len(),
    {
        self.pending_bytes.len() - self.consumed
    }

    /// Receives a chunk: its bytes go behind those that are pending. A closed decoder
    /// drops them.
    pub fn push(&mut self, chunk: &[u8])
        requires
            old(self).wf(),
        ensures
            final(self).wf(),
            final(self)@ == old(self)@.push(chunk@),
    {
        match self.status {
            Status::Open => {},
            _ => {
                return ;
            },
        }
        if self.consumed > 0 {
            let kept = copy_bytes(
                slice_subrange(self.pending_bytes.as_slice(), self.consumed, self.pending_bytes.len()),
            );
            self.consumed = 0;
            self.pending_bytes = kept;
        }
        let mut arrived = copy_bytes(chunk);
        self.pending_bytes.append(&mut arrived);
        assert(final(self)@.pending =~= old(self)@.pending + chunk@);
    }

    /// The end of the first line that is pending: the index of its line feed in the
    /// buffer, or the buffer's length where no line is complete.
    fn line_feed_index(&self) -> (at: usize)
        requires
            self.wf(),
        ensures
            self.consumed <= at <= self.pending_bytes@.len(),
            at - self.consumed == line_end(self@.pending, 0),
    {
        let mut at: usize = self.consumed;
        while at < self.pending_bytes.len() && self.pending_bytes[at] != LINE_FEED
            invariant
                self.consumed <= at <= self.pending_bytes@.len(),
                forall|k: int| self.consumed <= k < at ==> self.pending_bytes@[k] != LINE_FEED,
            decreases self.pending_bytes@.len() - at,
        {
            at += 1;
        }
        proof {
            lemma_line_end_is(self@.pending, 0, at - self.consumed);
        }
        at
    }

    /// Pulls the next frame out of what has been received. Lines that are no data lines
    /// are passed over. An event leaves the decoder open, behind the event's line; the
    /// done marker and a malformed chunk close it and discard what is pending. A closed
    /// decoder answers as it did when it closed.
    pub fn next_frame(&mut self) -> (out: Decoded)
        requires
            old(self).wf(),
        ensures
            final(self).wf(),
            (final(self)@, out@) == old(self)@.poll(),
    {
        match &self.status {
            Status::Open => {},
            Status::Done => {
                return Decoded::Done;
            },
            Status::Failed(error) => {
                let raw_text = copy_bytes(error.raw_text.as_slice());
                return Decoded::Malformed(MalformedChunkError { raw_text });
            },
        }
        loop
            invariant
                self.wf(),
                self.status is Open,
                self@.poll() == old(self)@.poll(),
            decreases self.pending_bytes@.len() - self.consumed,
        {
            let at = self.line_feed_index();
            if at >= self.pending_bytes.len() {
                return Decoded::Pending;
            }
            let ghost before = self@;
            let frame = Frame::of_line(
                slice_subrange(self.pending_bytes.as_slice(), self.consumed, at),
            );
            assert(frame@ == frame_of(before.pending.subrange(0, at - self.consumed))) by {
                assert(self.pending_bytes@.subrange(self.consumed as int, at as int)
                    =~= before.pending.subrange(0, at - self.consumed));
            }
            self.consumed = at + 1;
            assert(self@.pending =~= before.pending.subrange(
                line_end(before.pending, 0) + 1,
                before.pending.len() as int,
            ));
            match frame {
                Frame::Noise => {},
                Frame::Delta(event) => {
                    return Decoded::Event(event);
                },
                Frame::Done => {
                    self.close(Status::Done);
                    return Decoded::Done;
                },
                Frame::Malformed(error) => {
                    let raw_text = copy_bytes(error.raw_text.as_slice());
                    self.close(Status::Failed(MalformedChunkError { raw_text }));
                    return Decoded::Malformed(error);
                },
            }
        }
    }

    /// Receives a chunk and pulls until no event comes. The events come out in the order
    /// of their lines.
    pub fn feed(&mut self, chunk: &[u8]) -> (events: Vec<CompletionDeltaEvent>)
        requires
            old(self).wf(),
        ensures
            final(self).wf(),
            (final(self)@, fragments(events@)) == old(self)@.feed(chunk@),
    {
        self.push(chunk);
        let ghost target = self@.drain();
        let mut events: Vec<CompletionDeltaEvent> = Vec::new();
        assert(fragments(events@) + target.1 =~= target.1);
        loop
            invariant
                self.wf(),
                target == old(self)@.feed(chunk@),
                target == (self@.drain().0, fragments(events@) + self@.drain().1),
            decreases self@.pending.len(),
        {
            proof {
                lemma_drain_by_poll(self@);
                lemma_poll_shrinks(self@);
            }
            let ghost before = fragments(events@);
            match self.next_frame() {
                Decoded::Event(event) => {
                    events.push(event);
                    assert(fragments(events@) =~= before + seq![event@]);
                    assert(fragments(events@) + self@.drain().1 =~= before + (seq![event@]
                        + self@.drain().1));
                },
                _ => {
                    assert(before + Seq::<Seq<char>>::empty() =~= before);
                    return events;
                },
            }
        }
    }

    /// What the end of the body means: nothing after the done marker, the error of a
    /// malformed chunk after one, and a truncated stream otherwise, whether or not a
    /// partial line is pending.
    pub fn finish(&self) -> (outcome: Result<(), StreamError>)
        ensures
            match outcome {
                Ok(_) => end_of_body(self@.end) is Ok,
                Err(error) => end_of_body(self@.end) == Err::<(), StreamErrorView>(error@),
            },
    {
        match &self.status {
            Status::Open => Err(StreamError::TruncatedStream),
            Status::Done => Ok(()),
            Status::Failed(error) => {
                let raw_text = copy_bytes(error.raw_text.as_slice());
                Err(StreamError::MalformedChunk(MalformedChunkError { raw_text }))
            },
        }
    }

    /// Decodes a whole body that arrived in `chunks`.
    pub fn decode_all(chunks: &Vec<Vec<u8>>) -> (transcript: Transcript)
        ensures
            fragments(transcript.events@) == DecoderView::start().feed_all(
                chunk_bytes(chunks@),
            ).1,
            fragments(transcript.events@) == DecoderView::start().feed(
                concat(chunk_bytes(chunks@)),
            ).1,
            match transcript.outcome {
                Ok(_) => end_of_body(
                    DecoderView::start().feed(concat(chunk_bytes(chunks@))).0.end,
                ) is Ok,
                Err(error) => end_of_body(
                    DecoderView::start().feed(concat(chunk_bytes(chunks@))).0.end,
                ) == Err::<(), StreamErrorView>(error@),
            },
    {
        let mut state = StreamState::new();
        let mut events: Vec<CompletionDeltaEvent> = Vec::new();
        let mut i: usize = 0;
        assert(chunk_bytes(chunks@).subrange(0, 0) =~= Seq::<Seq<u8>>::empty());
        assert(fragments(events@) =~= Seq::<Seq<char>>::empty());
        while i < chunks.len()
            invariant
                i <= chunks@.len(),
                state.wf(),
                (state@, fragments(events@)) == DecoderView::start().feed_all(
                    chunk_bytes(chunks@).subrange(0, i as int),
                ),
            decreases chunks@.len() - i,
        {
            let ghost before = fragments(events@);
            let mut more = state.feed(chunks[i].as_slice());
            let ghost added = fragments(more@);
            events.append(&mut more);
            proof {
                let upto = chunk_bytes(chunks@).subrange(0, i + 1);
                assert(upto.drop_last() =~= chunk_bytes(chunks@).subrange(0, i as int));
                assert(upto.last() == chunks@[i as int]@);
                assert(fragments(events@) =~= before + added);
            }
            i += 1;
        }
        proof {
            assert(chunk_bytes(chunks@).subrange(0, i as int) =~= chunk_bytes(chunks@));
            lemma_chunking_is_irrelevant(chunk_bytes(chunks@));
        }
        Transcript { events, outcome: state.finish() }
    }

    /// Gives up the bytes that are pending.
    pub fn discard_pending(&mut self)
        ensures
            final(self).wf(),
            final(self)@ == old(self)@.discard(),
    {
        self.consumed = 0;
        self.pending_bytes = Vec::new();
        assert(self@.pending =~= Seq::<u8>::empty());
    }

    /// Closes the decoder and discards what is pending.
    fn close(&mut self, status: Status)
        ensures
            final(self).wf(),
            final(self).status == status,
            final(self)@.pending == Seq::<u8>::empty(),
    {
        self.consumed = 0;
        self.pending_bytes = Vec::new();
        self.status = status;
        assert(self@.pending =~= Seq::<u8>::empty());
    }
}

} // verus!

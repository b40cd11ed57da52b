//! The stream orchestrator: the decisions of one request/response exchange.
//!
//! The orchestrator performs no I/O. Its driver sends the request, reads the body and
//! hands events to the consumer; after each of these it reports what happened, with the
//! time that the exchange has taken so far, and is told what to do next. The driver
//! waits in two places only: for the next chunk, and for the consumer.

use vstd::prelude::*;

use crate::decoder::{
    lemma_drain_by_poll, lemma_poll_closes_for_good, lemma_poll_shrinks, Decoded, DecodedView,
    DecoderView, StreamEnd, StreamState,
};
use crate::error::{StreamError, StreamErrorView};
use crate::frame::CompletionDeltaEvent;

verus! {

/// Where an exchange stands.
#[derive(Clone, Copy, Debug, PartialEq, Eq, Structural)]
pub enum Phase {
    /// The request is on its way; the response has not begun.
    Connecting,
    /// The driver waits for the next chunk.
    Receiving,
    /// The consumer holds an event; the driver waits for it.
    Delivering,
    /// The exchange is over and its connection closed.
    Closed,
}

/// What the driver reports.
#[derive(Debug, PartialEq, Eq)]
pub enum Input {
    /// The response has begun.
    Opened,
    /// A chunk of the body has arrived.
    Chunk(Vec<u8>),
    /// The body has ended.
    EndOfBody,
    /// The transport has failed.
    TransportFailed,
    /// The consumer has taken the event and is ready for the next.
    Ready,
    /// The consumer has stopped consuming.
    Cancelled,
    /// Nothing but time has passed.
    Tick,
}

/// How an exchange ended.
#[derive(Debug, PartialEq, Eq)]
pub enum Outcome {
    /// The done marker was seen: the answer is complete.
    Completed,
    /// The consumer stopped consuming.
    Cancelled,
    Failed(StreamError),
}

/// What the driver is to do next.
#[derive(Debug, PartialEq, Eq)]
pub enum Action {
    /// Go on waiting for the response to begin.
    AwaitResponse,
    /// Wait for the next chunk of the body.
    AwaitChunk,
    /// Hand the event to the consumer and wait for it.
    Deliver(CompletionDeltaEvent),
    /// Go on waiting for the consumer.
    AwaitConsumer,
    /// Close the connection: the exchange is over.
    Close(Outcome),
    /// Nothing: the exchange was over before.
    Stop,
}

pub enum InputView {
    Opened,
    Chunk(Seq<u8>),
    EndOfBody,
    TransportFailed,
    Ready,
    Cancelled,
    Tick,
}

pub enum OutcomeView {
    Completed,
    Cancelled,
    Failed(StreamErrorView),
}

pub enum ActionView {
    AwaitResponse,
    AwaitChunk,
    Deliver(Seq<char>),
    AwaitConsumer,
    Close(OutcomeView),
    Stop,
}

impl View for Input {
    type V = InputView;

    open spec fn view(&self) -> InputView {
        match self {
            Input::Opened => InputView::Opened,
            Input::Chunk(bytes) => InputView::Chunk(bytes@),
            Input::EndOfBody => InputView::EndOfBody,
            Input::TransportFailed => InputView::TransportFailed,
            Input::Ready => InputView::Ready,
            Input::Cancelled => InputView::Cancelled,
            Input::Tick => InputView::Tick,
        }
    }
}

impl View for Outcome {
    type V = OutcomeView;

    open spec fn view(&self) -> OutcomeView {
        match self {
            Outcome::Completed => OutcomeView::Completed,
            Outcome::Cancelled => OutcomeView::Cancelled,
            Outcome::Failed(error) => OutcomeView::Failed(error@),
        }
    }
}

impl View for Action {
    type V = ActionView;

    open spec fn view(&self) -> ActionView {
        match self {
            Action::AwaitResponse => ActionView::AwaitResponse,
            Action::AwaitChunk => ActionView::AwaitChunk,
            Action::Deliver(event) => ActionView::Deliver(event@),
            Action::AwaitConsumer => ActionView::AwaitConsumer,
            Action::Close(outcome) => ActionView::Close(outcome@),
            Action::Stop => ActionView::Stop,
        }
    }
}

/// The orchestrator as specifications see it.
pub struct OrchestratorView {
    pub decoder: DecoderView,
    pub phase: Phase,
    /// The milliseconds that the whole exchange may take.
    pub timeout_ms: u64,
}

impl OrchestratorView {
    /// An exchange whose request is on its way.
    pub open spec fn start(timeout_ms: u64) -> OrchestratorView {
        OrchestratorView { decoder: DecoderView::start(), phase: Phase::Connecting, timeout_ms }
    }

    /// What holds of every exchange: until the response has begun the decoder has
    /// received nothing, while the exchange is open neither the done marker nor a
    /// malformed chunk has been seen, and once it is over nothing is buffered.
    pub open spec fn inv(self) -> bool {
        match self.phase {
            Phase::Connecting => self.decoder == DecoderView::start(),
            Phase::Receiving | Phase::Delivering => self.decoder.end is Open,
            Phase::Closed => self.decoder.pending == Seq::<u8>::empty(),
        }
    }

    /// Ends the exchange: what is buffered is given up and the connection closed.
    pub open spec fn close(self, outcome: OutcomeView) -> (OrchestratorView, ActionView) {
        (
            OrchestratorView {
                decoder: self.decoder.discard(),
                phase: Phase::Closed,
                timeout_ms: self.timeout_ms,
            },
            ActionView::Close(outcome),
        )
    }

    /// Pulls the next frame from the decoder and acts on it: an event goes to the
    /// consumer, the done marker and a malformed chunk end the exchange, and where no
    /// line is complete the next chunk is awaited.
    pub open spec fn advance(self) -> (OrchestratorView, ActionView) {
        let (decoder, out) = self.decoder.poll();
        let pulled = OrchestratorView { decoder, phase: self.phase, timeout_ms: self.timeout_ms };
        match out {
            DecodedView::Pending => (
                OrchestratorView { phase: Phase::Receiving, ..pulled },
                ActionView::AwaitChunk,
            ),
            DecodedView::Event(text) => (
                OrchestratorView { phase: Phase::Delivering, ..pulled },
                ActionView::Deliver(text),
            ),
            DecodedView::Done => pulled.close(OutcomeView::Completed),
            DecodedView::Malformed(raw) => pulled.close(
                OutcomeView::Failed(StreamErrorView::MalformedChunk(raw)),
            ),
        }
    }

    /// The orchestrator with `chunk` received.
    pub open spec fn receive(self, chunk: Seq<u8>) -> OrchestratorView {
        OrchestratorView {
            decoder: self.decoder.push(chunk),
            phase: self.phase,
            timeout_ms: self.timeout_ms,
        }
    }

    /// One step: the orchestrator after `input`, reported `elapsed_ms` milliseconds
    /// into the exchange, and what the driver is to do next.
    ///
    /// A closed exchange stays closed. Otherwise a cancellation ends the exchange, and
    /// so does any other report that comes after the timeout. Within the timeout, each
    /// phase acts on the reports that it waits for and goes on waiting at any other.
    pub open spec fn step(self, input: InputView, elapsed_ms: u64) -> (
        OrchestratorView,
        ActionView,
    ) {
        if self.phase == Phase::Closed {
            (self, ActionView::Stop)
        } else if input is Cancelled {
            self.close(OutcomeView::Cancelled)
        } else if elapsed_ms > self.timeout_ms {
            self.close(OutcomeView::Failed(StreamErrorView::Timeout))
        } else {
            match self.phase {
                Phase::Connecting => match input {
                    InputView::Opened => (
                        OrchestratorView { phase: Phase::Receiving, ..self },
                        ActionView::AwaitChunk,
                    ),
                    InputView::TransportFailed => self.close(
                        OutcomeView::Failed(StreamErrorView::Network),
                    ),
                    _ => (self, ActionView::AwaitResponse),
                },
                Phase::Receiving => match input {
                    InputView::Chunk(bytes) => self.receive(bytes).advance(),
                    InputView::EndOfBody => self.close(
                        OutcomeView::Failed(StreamErrorView::TruncatedStream),
                    ),
                    InputView::TransportFailed => self.close(
                        OutcomeView::Failed(StreamErrorView::Network),
                    ),
                    _ => (self, ActionView::AwaitChunk),
                },
                Phase::Delivering => match input {
                    InputView::Ready => self.advance(),
                    InputView::Chunk(bytes) => (self.receive(bytes), ActionView::AwaitConsumer),
                    _ => (self, ActionView::AwaitConsumer),
                },
                Phase::Closed => (self, ActionView::Stop),
            }
        }
    }
}

impl OrchestratorView {
    /// What reaches a consumer that takes every event as it is handed over. Given the
    /// action that the orchestrator has just asked for, this is the orchestrator once
    /// it asks for something other than a delivery, the events delivered until then in
    /// order, and that last action.
    pub open spec fn hand_over(self, action: ActionView, elapsed_ms: u64) -> (
        OrchestratorView,
        Seq<Seq<char>>,
        ActionView,
    )
        decreases self.decoder.pending.len(), (if action is Deliver { 1nat } else { 0nat }),
    {
        match action {
            ActionView::Deliver(text) => {
                proof {
                    lemma_poll_shrinks(self.decoder);
                }
                let (next, then) = self.step(InputView::Ready, elapsed_ms);
                let (last, events, end) = next.hand_over(then, elapsed_ms);
                (last, seq![text] + events, end)
            },
            _ => (self, Seq::empty(), action),
        }
    }

    /// What the orchestrator asks for once the decoder has nothing more to give.
    pub open spec fn settled(end: StreamEnd) -> ActionView {
        match end {
            StreamEnd::Open => ActionView::AwaitChunk,
            StreamEnd::Done => ActionView::Close(OutcomeView::Completed),
            StreamEnd::Malformed(raw) => ActionView::Close(
                OutcomeView::Failed(StreamErrorView::MalformedChunk(raw)),
            ),
        }
    }
}

/// The invariant holds at the start and after every step.
pub proof fn lemma_step_keeps_invariant(
    orchestrator: OrchestratorView,
    input: InputView,
    elapsed_ms: u64,
)
    requires
        orchestrator.inv(),
    ensures
        OrchestratorView::start(orchestrator.timeout_ms).inv(),
        orchestrator.step(input, elapsed_ms).0.inv(),
        orchestrator.step(input, elapsed_ms).0.timeout_ms == orchestrator.timeout_ms,
{
    lemma_poll_shrinks(orchestrator.decoder);
    if input is Chunk {
        lemma_poll_shrinks(orchestrator.decoder.push(input->Chunk_0));
    }
}

/// An event is delivered only while the stream is open: none comes with or after the
/// done marker or a malformed chunk.
pub proof fn lemma_delivery_leaves_stream_open(
    orchestrator: OrchestratorView,
    input: InputView,
    elapsed_ms: u64,
)
    requires
        orchestrator.inv(),
        orchestrator.step(input, elapsed_ms).1 is Deliver,
    ensures
        orchestrator.step(input, elapsed_ms).0.phase == Phase::Delivering,
        orchestrator.step(input, elapsed_ms).0.decoder.end is Open,
{
    lemma_step_keeps_invariant(orchestrator, input, elapsed_ms);
}

/// A closed exchange stays closed: whatever is reported, nothing is asked of the driver
/// and nothing is delivered.
pub proof fn lemma_closed_exchange_is_over(
    orchestrator: OrchestratorView,
    input: InputView,
    elapsed_ms: u64,
)
    requires
        orchestrator.phase == Phase::Closed,
    ensures
        orchestrator.step(input, elapsed_ms) == (orchestrator, ActionView::Stop),
{
}

/// A cancellation ends an exchange that is not over, at any time: the connection is
/// closed, what is buffered is given up, and no chunk is asked for again.
pub proof fn lemma_cancel_closes(
    orchestrator: OrchestratorView,
    elapsed_ms: u64,
    later: InputView,
    later_ms: u64,
)
    requires
        orchestrator.phase != Phase::Closed,
    ensures
        orchestrator.step(InputView::Cancelled, elapsed_ms).1 == ActionView::Close(
            OutcomeView::Cancelled,
        ),
        orchestrator.step(InputView::Cancelled, elapsed_ms).0.phase == Phase::Closed,
        orchestrator.step(InputView::Cancelled, elapsed_ms).0.decoder.pending == Seq::<u8>::empty(),
        orchestrator.step(InputView::Cancelled, elapsed_ms).0.step(later, later_ms).1
            == ActionView::Stop,
{
}

/// The timeout bounds the whole exchange: whatever but a cancellation is reported after
/// it, a chunk too, fails the exchange and closes the connection.
pub proof fn lemma_timeout_closes(orchestrator: OrchestratorView, input: InputView, elapsed_ms: u64)
    requires
        orchestrator.phase != Phase::Closed,
        !(input is Cancelled),
        elapsed_ms > orchestrator.timeout_ms,
    ensures
        orchestrator.step(input, elapsed_ms).1 == ActionView::Close(
            OutcomeView::Failed(StreamErrorView::Timeout),
        ),
        orchestrator.step(input, elapsed_ms).0.phase == Phase::Closed,
{
}

/// Every step either closes the exchange, and says so, or leaves it open: the driver is
/// told to close the connection exactly when the exchange ends.
pub proof fn lemma_close_is_announced(
    orchestrator: OrchestratorView,
    input: InputView,
    elapsed_ms: u64,
)
    requires
        orchestrator.phase != Phase::Closed,
    ensures
        orchestrator.step(input, elapsed_ms).1 is Close <==> orchestrator.step(
            input,
            elapsed_ms,
        ).0.phase == Phase::Closed,
        !(orchestrator.step(input, elapsed_ms).1 is Stop),
{
}

/// Pulling for a consumer that takes every event hands over what draining the decoder
/// gives, in the same order, and ends where draining ends.
pub proof fn lemma_advance_hands_over_drain(orchestrator: OrchestratorView, elapsed_ms: u64)
    requires
        orchestrator.phase != Phase::Closed,
        orchestrator.decoder.end is Open,
        elapsed_ms <= orchestrator.timeout_ms,
    ensures
        ({
            let (next, action) = orchestrator.advance();
            let (last, events, end) = next.hand_over(action, elapsed_ms);
            &&& (last.decoder, events) == orchestrator.decoder.drain()
            &&& end == OrchestratorView::settled(last.decoder.end)
            &&& last.phase == if last.decoder.end is Open {
                Phase::Receiving
            } else {
                Phase::Closed
            }
        }),
    decreases orchestrator.decoder.pending.len(),
{
    let (next, action) = orchestrator.advance();
    lemma_drain_by_poll(orchestrator.decoder);
    lemma_poll_shrinks(orchestrator.decoder);
    match orchestrator.decoder.poll().1 {
        DecodedView::Event(text) => {
            assert(next.step(InputView::Ready, elapsed_ms) == next.advance());
            lemma_advance_hands_over_drain(next, elapsed_ms);
        },
        DecodedView::Pending => {},
        _ => {
            lemma_poll_closes_for_good(orchestrator.decoder);
            assert(next.decoder == orchestrator.decoder.poll().0);
        },
    }
}

/// In-order delivery: a chunk that arrives while the orchestrator waits for one goes to
/// the decoder, and a consumer that takes every event is handed all the events that the
/// chunk completes, in the order of their lines, before the next chunk is asked for or
/// the exchange ends.
pub proof fn lemma_chunk_is_delivered_in_order(
    orchestrator: OrchestratorView,
    chunk: Seq<u8>,
    elapsed_ms: u64,
)
    requires
        orchestrator.inv(),
        orchestrator.phase == Phase::Receiving,
        elapsed_ms <= orchestrator.timeout_ms,
    ensures
        ({
            let (next, action) = orchestrator.step(InputView::Chunk(chunk), elapsed_ms);
            let (last, events, end) = next.hand_over(action, elapsed_ms);
            &&& (last.decoder, events) == orchestrator.decoder.feed(chunk)
            &&& end == OrchestratorView::settled(last.decoder.end)
        }),
{
    lemma_advance_hands_over_drain(orchestrator.receive(chunk), elapsed_ms);
}

/// The state of one exchange.
pub struct Orchestrator {
    decoder: StreamState,
    phase: Phase,
    timeout_ms: u64,
}

impl View for Orchestrator {
    type V = OrchestratorView;

    closed spec fn view(&self) -> OrchestratorView {
        OrchestratorView {
            decoder: self.decoder@,
            phase: self.phase,
            timeout_ms: self.timeout_ms,
        }
    }
}

impl Orchestrator {
    /// The orchestrator's invariant: that of its decoder, and that of the exchange.
    pub closed spec fn wf(&self) -> bool {
        self.decoder.wf() && self@.inv()
    }

    /// The orchestrator of an exchange whose request is on its way and which may take
    /// `timeout_ms` milliseconds in all.
    pub fn new(timeout_ms: u64) -> (orchestrator: Orchestrator)
        ensures
            orchestrator.wf(),
            orchestrator@ == OrchestratorView::start(timeout_ms),
    {
        Orchestrator { decoder: StreamState::new(), phase: Phase::Connecting, timeout_ms }
    }

    pub fn phase(&self) -> (phase: Phase)
        ensures
            phase == self@.phase,
    {
        self.phase
    }

    /// Whether the exchange is over.
    pub fn is_closed(&self) -> (closed: bool)
        ensures
            closed == (self@.phase == Phase::Closed),
    {
        self.phase == Phase::Closed
    }

    fn close(&mut self, outcome: Outcome) -> (action: Action)
        ensures
            final(self).wf(),
            (final(self)@, action@) == old(self)@.close(outcome@),
    {
        self.decoder.discard_pending();
        self.phase = Phase::Closed;
        Action::Close(outcome)
    }

    fn advance(&mut self) -> (action: Action)
        requires
            old(self).decoder.wf(),
        ensures
            final(self).wf(),
            (final(self)@, action@) == old(self)@.advance(),
    {
        proof {
            lemma_poll_shrinks(self.decoder@);
        }
        match self.decoder.next_frame() {
            Decoded::Pending => {
                self.phase = Phase::Receiving;
                Action::AwaitChunk
            },
            Decoded::Event(event) => {
                self.phase = Phase::Delivering;
                Action::Deliver(event)
            },
            Decoded::Done => self.close(Outcome::Completed),
            Decoded::Malformed(error) => self.close(
                Outcome::Failed(StreamError::MalformedChunk(error)),
            ),
        }
    }

    /// Takes the driver's report `input`, made `elapsed_ms` milliseconds into the
    /// exchange, and says what the driver is to do next.
    pub fn step(&mut self, input: Input, elapsed_ms: u64) -> (action: Action)
        requires
            old(self).wf(),
        ensures
            final(self).wf(),
            (final(self)@, action@) == old(self)@.step(input@, elapsed_ms),
    {
        if self.phase == Phase::Closed {
            return Action::Stop;
        }
        if let Input::Cancelled = input {
            return self.close(Outcome::Cancelled);
        }
        if elapsed_ms > self.timeout_ms {
            return self.close(Outcome::Failed(StreamError::Timeout));
        }
        match self.phase {
            Phase::Connecting => match input {
                Input::Opened => {
                    self.phase = Phase::Receiving;
                    Action::AwaitChunk
                },
                Input::TransportFailed => self.close(Outcome::Failed(StreamError::Network)),
                _ => Action::AwaitResponse,
            },
            Phase::Receiving => match input {
                Input::Chunk(bytes) => {
                    self.decoder.push(bytes.as_slice());
                    self.advance()
                },
                Input::EndOfBody => self.close(Outcome::Failed(StreamError::TruncatedStream)),
                Input::TransportFailed => self.close(Outcome::Failed(StreamError::Network)),
                _ => Action::AwaitChunk,
            },
            Phase::Delivering => match input {
                Input::Ready => self.advance(),
                Input::Chunk(bytes) => {
                    self.decoder.push(bytes.as_slice());
                    Action::AwaitConsumer
                },
                _ => Action::AwaitConsumer,
            },
            Phase::Closed => Action::Stop,
        }
    }
}

} // verus!

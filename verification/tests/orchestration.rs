use chat_stream::error::{MalformedChunkError, StreamError};
use chat_stream::frame::CompletionDeltaEvent;
use chat_stream::stream::{Action, Input, Orchestrator, Outcome, Phase};

/// A transport that serves chunks from a list and records how it was left.
struct Transport {
    chunks: Vec<Vec<u8>>,
    served: usize,
    closed: bool,
}

impl Transport {
    fn new(chunks: &[&[u8]]) -> Transport {
        Transport { chunks: chunks.iter().map(|c| c.to_vec()).collect(), served: 0, closed: false }
    }

    fn read(&mut self) -> Input {
        assert!(!self.closed);
        if self.served < self.chunks.len() {
            self.served += 1;
            Input::Chunk(self.chunks[self.served - 1].clone())
        } else {
            Input::EndOfBody
        }
    }

    fn drained(&self) -> bool {
        self.served == self.chunks.len()
    }
}

/// Drives an exchange for a consumer that takes at most `take` events.
fn drive(transport: &mut Transport, take: usize) -> (Vec<String>, Outcome) {
    let mut orchestrator = Orchestrator::new(60_000);
    let mut delivered = Vec::new();
    let mut action = orchestrator.step(Input::Opened, 1);
    loop {
        action = match action {
            Action::AwaitChunk => {
                let input = transport.read();
                orchestrator.step(input, 2)
            }
            Action::Deliver(event) => {
                delivered.push(event.text_fragment);
                if delivered.len() < take {
                    orchestrator.step(Input::Ready, 3)
                } else {
                    orchestrator.step(Input::Cancelled, 3)
                }
            }
            Action::Close(outcome) => {
                transport.closed = true;
                assert!(orchestrator.is_closed());
                return (delivered, outcome);
            }
            other => panic!("unexpected action {:?}", other),
        };
    }
}

fn content(text: &str) -> Vec<u8> {
    format!("data: {{\"choices\":[{{\"delta\":{{\"content\":\"{}\"}}}}]}}\n", text).into_bytes()
}

fn deliver(text: &str) -> Action {
    Action::Deliver(CompletionDeltaEvent { text_fragment: text.to_string() })
}

#[test]
fn events_reach_the_consumer_in_order() {
    let mut transport = Transport::new(&[
        b"data: {\"choices\":[{\"delta\":{\"content\":\"Hel",
        b"lo\"}}]}\n\ndata: {\"choices\":[{\"delta\":{\"content\":\", \"}}]}\n",
        b"data: {\"choices\":[{\"delta\":{\"content\":\"world\"}}]}\n\ndata: [DONE]\n\n",
        b"data: never read\n",
    ]);
    let (delivered, outcome) = drive(&mut transport, usize::MAX);
    assert_eq!(delivered, vec!["Hello", ", ", "world"]);
    assert_eq!(outcome, Outcome::Completed);
    assert!(transport.closed);
    assert_eq!(transport.served, 3);
}

#[test]
fn cancelling_after_the_first_event_closes_the_connection() {
    let mut transport = Transport::new(&[
        &content("one"),
        &content("two"),
        &content("three"),
        b"data: [DONE]\n",
    ]);
    let (delivered, outcome) = drive(&mut transport, 1);
    assert_eq!(delivered, vec!["one"]);
    assert_eq!(outcome, Outcome::Cancelled);
    assert!(transport.closed);
    assert!(!transport.drained());
    assert_eq!(transport.served, 1);
}

#[test]
fn cancelling_leaves_the_rest_of_a_chunk_undelivered() {
    let mut chunk = content("one");
    chunk.extend_from_slice(&content("two"));
    let mut transport = Transport::new(&[&chunk, b"data: [DONE]\n"]);
    let (delivered, outcome) = drive(&mut transport, 1);
    assert_eq!(delivered, vec!["one"]);
    assert_eq!(outcome, Outcome::Cancelled);
    assert!(transport.closed);
    assert_eq!(transport.served, 1);
}

#[test]
fn body_that_ends_early_is_truncated() {
    let mut transport = Transport::new(&[&content("one"), b"data: {\"cho"]);
    let (delivered, outcome) = drive(&mut transport, usize::MAX);
    assert_eq!(delivered, vec!["one"]);
    assert_eq!(outcome, Outcome::Failed(StreamError::TruncatedStream));
    assert!(transport.closed);
}

#[test]
fn malformed_chunk_fails_the_exchange() {
    let mut transport = Transport::new(&[&content("one"), b"data: not-json\n", &content("two")]);
    let (delivered, outcome) = drive(&mut transport, usize::MAX);
    assert_eq!(delivered, vec!["one"]);
    assert_eq!(
        outcome,
        Outcome::Failed(StreamError::MalformedChunk(MalformedChunkError { raw_text: b"not-json".to_vec() }))
    );
    assert!(transport.closed);
    assert_eq!(transport.served, 2);
}

#[test]
fn phases_follow_the_exchange() {
    let mut orchestrator = Orchestrator::new(1000);
    assert_eq!(orchestrator.phase(), Phase::Connecting);
    assert_eq!(orchestrator.step(Input::Tick, 10), Action::AwaitResponse);
    assert_eq!(orchestrator.step(Input::Ready, 10), Action::AwaitResponse);
    assert_eq!(orchestrator.step(Input::Chunk(content("early")), 10), Action::AwaitResponse);
    assert_eq!(orchestrator.phase(), Phase::Connecting);
    assert_eq!(orchestrator.step(Input::Opened, 20), Action::AwaitChunk);
    assert_eq!(orchestrator.phase(), Phase::Receiving);
    assert_eq!(orchestrator.step(Input::Tick, 30), Action::AwaitChunk);
    assert_eq!(orchestrator.step(Input::Ready, 30), Action::AwaitChunk);
    assert_eq!(orchestrator.step(Input::Opened, 30), Action::AwaitChunk);
    assert_eq!(orchestrator.step(Input::Chunk(b": noise\n\ndata: {\"ch".to_vec()), 40), Action::AwaitChunk);
    assert_eq!(orchestrator.phase(), Phase::Receiving);
    let mut rest = b"oices\":[{\"delta\":{\"content\":\"a\"}}]}\n".to_vec();
    rest.extend_from_slice(&content("b"));
    assert_eq!(orchestrator.step(Input::Chunk(rest), 50), deliver("a"));
    assert_eq!(orchestrator.phase(), Phase::Delivering);
    assert_eq!(orchestrator.step(Input::Tick, 60), Action::AwaitConsumer);
    assert_eq!(orchestrator.step(Input::EndOfBody, 60), Action::AwaitConsumer);
    assert_eq!(orchestrator.step(Input::TransportFailed, 60), Action::AwaitConsumer);
    assert_eq!(orchestrator.phase(), Phase::Delivering);
    assert_eq!(orchestrator.step(Input::Ready, 70), deliver("b"));
    assert_eq!(orchestrator.step(Input::Ready, 80), Action::AwaitChunk);
    assert_eq!(orchestrator.phase(), Phase::Receiving);
    assert_eq!(orchestrator.step(Input::Chunk(b"data: [DONE]\n".to_vec()), 1000), Action::Close(Outcome::Completed));
    assert_eq!(orchestrator.phase(), Phase::Closed);
    assert!(orchestrator.is_closed());
}

#[test]
fn chunk_that_arrives_during_a_delivery_is_kept() {
    let mut orchestrator = Orchestrator::new(1000);
    assert_eq!(orchestrator.step(Input::Opened, 0), Action::AwaitChunk);
    assert_eq!(orchestrator.step(Input::Chunk(content("a")), 0), deliver("a"));
    assert_eq!(orchestrator.step(Input::Chunk(content("b")), 0), Action::AwaitConsumer);
    assert_eq!(orchestrator.step(Input::Ready, 0), deliver("b"));
    assert_eq!(orchestrator.step(Input::Ready, 0), Action::AwaitChunk);
}

#[test]
fn closed_exchange_stays_closed() {
    let mut orchestrator = Orchestrator::new(1000);
    assert_eq!(orchestrator.step(Input::Opened, 0), Action::AwaitChunk);
    assert_eq!(orchestrator.step(Input::Chunk(b"data: [DONE]\n".to_vec()), 1), Action::Close(Outcome::Completed));
    assert_eq!(orchestrator.step(Input::Chunk(content("late")), 2), Action::Stop);
    assert_eq!(orchestrator.step(Input::Ready, 3), Action::Stop);
    assert_eq!(orchestrator.step(Input::Cancelled, 4), Action::Stop);
    assert_eq!(orchestrator.step(Input::EndOfBody, 5000), Action::Stop);
    assert_eq!(orchestrator.step(Input::Opened, 6), Action::Stop);
    assert_eq!(orchestrator.step(Input::TransportFailed, 7), Action::Stop);
    assert_eq!(orchestrator.step(Input::Tick, 8), Action::Stop);
    assert!(orchestrator.is_closed());
}

#[test]
fn failure_to_connect_is_a_network_error() {
    let mut orchestrator = Orchestrator::new(1000);
    assert_eq!(
        orchestrator.step(Input::TransportFailed, 5),
        Action::Close(Outcome::Failed(StreamError::Network))
    );
    assert!(orchestrator.is_closed());
}

#[test]
fn failure_while_receiving_is_a_network_error() {
    let mut orchestrator = Orchestrator::new(1000);
    assert_eq!(orchestrator.step(Input::Opened, 0), Action::AwaitChunk);
    assert_eq!(orchestrator.step(Input::Chunk(b"data: {".to_vec()), 1), Action::AwaitChunk);
    assert_eq!(
        orchestrator.step(Input::TransportFailed, 5),
        Action::Close(Outcome::Failed(StreamError::Network))
    );
    assert!(orchestrator.is_closed());
}

#[test]
fn timeout_bounds_the_whole_exchange() {
    let timeout = Action::Close(Outcome::Failed(StreamError::Timeout));

    let mut connecting = Orchestrator::new(60_000);
    assert_eq!(connecting.step(Input::Tick, 60_000), Action::AwaitResponse);
    assert_eq!(connecting.step(Input::Opened, 60_001), timeout);
    assert!(connecting.is_closed());

    let mut receiving = Orchestrator::new(60_000);
    assert_eq!(receiving.step(Input::Opened, 10), Action::AwaitChunk);
    assert_eq!(receiving.step(Input::Chunk(content("in time")), 60_000), deliver("in time"));
    assert_eq!(receiving.step(Input::Ready, 60_000), Action::AwaitChunk);
    assert_eq!(receiving.step(Input::Chunk(content("late")), 60_001), timeout);
    assert_eq!(receiving.step(Input::Chunk(content("later")), 60_002), Action::Stop);

    let mut delivering = Orchestrator::new(60_000);
    assert_eq!(delivering.step(Input::Opened, 10), Action::AwaitChunk);
    let mut two = content("a");
    two.extend_from_slice(&content("b"));
    assert_eq!(delivering.step(Input::Chunk(two), 20), deliver("a"));
    assert_eq!(delivering.step(Input::Ready, u64::MAX), timeout);
    assert!(delivering.is_closed());

    let mut done_late = Orchestrator::new(0);
    assert_eq!(done_late.step(Input::Opened, 0), Action::AwaitChunk);
    assert_eq!(done_late.step(Input::Chunk(b"data: [DONE]\n".to_vec()), 1), timeout);
}

#[test]
fn cancellation_wins_over_the_timeout() {
    let mut orchestrator = Orchestrator::new(10);
    assert_eq!(orchestrator.step(Input::Opened, 0), Action::AwaitChunk);
    assert_eq!(orchestrator.step(Input::Cancelled, 11), Action::Close(Outcome::Cancelled));
    assert!(orchestrator.is_closed());
    let mut early = Orchestrator::new(10);
    assert_eq!(early.step(Input::Cancelled, 0), Action::Close(Outcome::Cancelled));
    assert_eq!(early.step(Input::Opened, 0), Action::Stop);
}

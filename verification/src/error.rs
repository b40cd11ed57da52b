//! What can go wrong in one exchange.

use vstd::prelude::*;

verus! {

/// A `data:` line whose payload is no completion chunk. It carries the payload as it
/// arrived.
#[derive(Debug, PartialEq, Eq)]
pub struct MalformedChunkError {
    pub raw_text: Vec<u8>,
}

impl View for MalformedChunkError {
    type V = Seq<u8>;

    open spec fn view(&self) -> Seq<u8> {
        self.raw_text@
    }
}

/// What the configuration lacks for an exchange. Each is found before any network
/// activity.
#[derive(Clone, Copy, Debug, PartialEq, Eq, Structural)]
pub enum ConfigError {
    /// No prompt template has the name that was asked for.
    PromptNotFound,
    /// No credential is configured.
    MissingCredential,
    /// No base URL is configured.
    MissingBaseUrl,
}

/// Why an exchange ended without its answer being complete.
#[derive(Debug, PartialEq, Eq)]
pub enum StreamError {
    /// The transport failed.
    Network,
    /// The exchange took longer than its timeout allows.
    Timeout,
    /// A data line held no completion chunk.
    MalformedChunk(MalformedChunkError),
    /// The body ended before the done marker.
    TruncatedStream,
}

/// A stream error as specifications see it.
pub enum StreamErrorView {
    Network,
    Timeout,
    MalformedChunk(Seq<u8>),
    TruncatedStream,
}

impl View for StreamError {
    type V = StreamErrorView;

    open spec fn view(&self) -> StreamErrorView {
        match self {
            StreamError::Network => StreamErrorView::Network,
            StreamError::Timeout => StreamErrorView::Timeout,
            StreamError::MalformedChunk(error) => StreamErrorView::MalformedChunk(error@),
            StreamError::TruncatedStream => StreamErrorView::TruncatedStream,
        }
    }
}

} // verus!

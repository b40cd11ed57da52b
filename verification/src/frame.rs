//! One line of the response body, and what it stands for.

use vstd::prelude::*;
use vstd::slice::*;
use vstd::string::*;

use crate::error::MalformedChunkError;
use crate::json::{json_parsed, parse_json, Json, JsonValue};
use crate::response::{chunk_contents, ChatCompletionResponse};

verus! {

pub const LINE_FEED: u8 = 0x0a;

pub const SPACE: u8 = 0x20;

/// The bytes of `data:`.
pub open spec fn data_prefix() -> Seq<u8> {
    seq![0x64u8, 0x61u8, 0x74u8, 0x61u8, 0x3au8]
}

/// The bytes of `[DONE]`.
pub open spec fn done_marker() -> Seq<u8> {
    seq![0x5bu8, 0x44u8, 0x4fu8, 0x4eu8, 0x45u8, 0x5du8]
}

/// ASCII white space: space, tab, line feed, form feed, carriage return.
pub open spec fn is_blank(byte: u8) -> bool {
    byte == 0x20 || byte == 0x09 || byte == 0x0a || byte == 0x0c || byte == 0x0d
}

/// Whether `bytes` begins with `prefix`.
pub open spec fn starts_with(bytes: Seq<u8>, prefix: Seq<u8>) -> bool {
    prefix.len() <= bytes.len() && bytes.subrange(0, prefix.len() as int) == prefix
}

/// What follows `data:` and at most one space in a data line; `None` for any other line.
pub open spec fn payload_of(line: Seq<u8>) -> Option<Seq<u8>> {
    if starts_with(line, data_prefix()) {
        if line.len() > 5 && line[5] == SPACE {
            Some(line.subrange(6, line.len() as int))
        } else {
            Some(line.subrange(5, line.len() as int))
        }
    } else {
        None
    }
}

/// Whether a payload is the done marker, followed by nothing but white space.
pub open spec fn is_done_payload(payload: Seq<u8>) -> bool {
    starts_with(payload, done_marker()) && forall|i: int|
        6 <= i < payload.len() ==> is_blank(#[trigger] payload[i])
}

/// The text fragment that a chunk document carries: the content of its first choice,
/// empty where that choice has none. `None` where the document is no chunk or has no
/// choice.
pub open spec fn fragment_of(document: JsonValue) -> Option<Seq<char>> {
    match chunk_contents(document) {
        Some(contents) => if contents.len() > 0 {
            match contents[0] {
                Some(text) => Some(text),
                None => Some(Seq::empty()),
            }
        } else {
            None
        },
        None => None,
    }
}

/// What one line of the body stands for.
pub enum FrameView {
    /// No data line: framing noise.
    Noise,
    /// The done marker.
    Done,
    /// A completion chunk, by its text fragment.
    Delta(Seq<char>),
    /// A data line whose payload is no completion chunk, by that payload.
    Malformed(Seq<u8>),
}

/// What a payload that is not the done marker stands for, given the outcome of reading
/// it as JSON.
pub open spec fn chunk_frame(payload: Seq<u8>, parsed: Option<JsonValue>) -> FrameView {
    match parsed {
        Some(document) => match fragment_of(document) {
            Some(text) => FrameView::Delta(text),
            None => FrameView::Malformed(payload),
        },
        None => FrameView::Malformed(payload),
    }
}

/// What the line `line`, taken without its line feed, stands for.
pub open spec fn frame_of(line: Seq<u8>) -> FrameView {
    match payload_of(line) {
        None => FrameView::Noise,
        Some(payload) => if is_done_payload(payload) {
            FrameView::Done
        } else {
            chunk_frame(payload, json_parsed(payload))
        },
    }
}

/// The incremental content of one streamed update.
#[derive(Debug, PartialEq, Eq)]
pub struct CompletionDeltaEvent {
    pub text_fragment: String,
}

impl View for CompletionDeltaEvent {
    type V = Seq<char>;

    open spec fn view(&self) -> Seq<char> {
        self.text_fragment@
    }
}

/// One decoded line.
#[derive(Debug, PartialEq, Eq)]
pub enum Frame {
    Noise,
    Done,
    Delta(CompletionDeltaEvent),
    Malformed(MalformedChunkError),
}

impl View for Frame {
    type V = FrameView;

    open spec fn view(&self) -> FrameView {
        match self {
            Frame::Noise => FrameView::Noise,
            Frame::Done => FrameView::Done,
            Frame::Delta(event) => FrameView::Delta(event@),
            Frame::Malformed(error) => FrameView::Malformed(error@),
        }
    }
}

/// Whether `bytes` begins with the bytes of `prefix`.
pub fn has_prefix(bytes: &[u8], prefix: &[u8]) -> (yes: bool)
    ensures
        yes == starts_with(bytes@, prefix@),
{
    if prefix.len() > bytes.len() {
        return false;
    }
    let mut i: usize = 0;
    while i < prefix.len()
        invariant
            i <= prefix@.len() <= bytes@.len(),
            forall|k: int| 0 <= k < i ==> bytes@[k] == prefix@[k],
        decreases prefix@.len() - i,
    {
        if bytes[i] != prefix[i] {
            assert(bytes@.subrange(0, prefix@.len() as int)[i as int] != prefix@[i as int]);
            return false;
        }
        i += 1;
    }
    assert(bytes@.subrange(0, prefix@.len() as int) =~= prefix@);
    true
}

/// A copy of `bytes`.
pub fn copy_bytes(bytes: &[u8]) -> (copy: Vec<u8>)
    ensures
        copy@ == bytes@,
{
    let mut copy: Vec<u8> = Vec::new();
    let mut i: usize = 0;
    while i < bytes.len()
        invariant
            i <= bytes@.len(),
            copy@ == bytes@.subrange(0, i as int),
        decreases bytes@.len() - i,
    {
        copy.push(bytes[i]);
        assert(copy@ =~= bytes@.subrange(0, i + 1));
        i += 1;
    }
    assert(copy@ =~= bytes@);
    copy
}

impl CompletionDeltaEvent {
    /// The event that a chunk document carries, if it carries one.
    pub fn from_json(json: &Json) -> (event: Option<CompletionDeltaEvent>)
        ensures
            match event {
                Some(e) => fragment_of(json@) == Some(e@),
                None => fragment_of(json@) is None,
            },
    {
        match ChatCompletionResponse::from_json(json) {
            Some(response) => {
                if response.choices.len() > 0 {
                    let text = response.content().to_owned();
                    Some(CompletionDeltaEvent { text_fragment: text })
                } else {
                    None
                }
            },
            None => None,
        }
    }
}

impl Frame {
    /// What follows `data:` and at most one space in a data line.
    pub fn payload(line: &[u8]) -> (payload: Option<&[u8]>)
        ensures
            match payload {
                Some(bytes) => payload_of(line@) == Some(bytes@),
                None => payload_of(line@) is None,
            },
    {
        let prefix: [u8; 5] = [0x64, 0x61, 0x74, 0x61, 0x3a];
        assert(prefix@ =~= data_prefix());
        if has_prefix(line, prefix.as_slice()) {
            if line.len() > 5 && line[5] == SPACE {
                Some(slice_subrange(line, 6, line.len()))
            } else {
                Some(slice_subrange(line, 5, line.len()))
            }
        } else {
            None
        }
    }

    /// Whether a payload is the done marker, followed by nothing but white space.
    pub fn is_done(payload: &[u8]) -> (done: bool)
        ensures
            done == is_done_payload(payload@),
    {
        let marker: [u8; 6] = [0x5b, 0x44, 0x4f, 0x4e, 0x45, 0x5d];
        assert(marker@ =~= done_marker());
        if !has_prefix(payload, marker.as_slice()) {
            return false;
        }
        let mut i: usize = 6;
        while i < payload.len()
            invariant
                6 <= i <= payload@.len(),
                forall|k: int| 6 <= k < i ==> is_blank(#[trigger] payload@[k]),
            decreases payload@.len() - i,
        {
            let byte = payload[i];
            if !(byte == 0x20 || byte == 0x09 || byte == 0x0a || byte == 0x0c || byte == 0x0d) {
                return false;
            }
            i += 1;
        }
        true
    }

    /// What a payload that is not the done marker stands for, once it has been read as
    /// JSON: the chunk's event, or the payload itself as the offending text.
    pub fn of_chunk(payload: &[u8], parsed: Option<&Json>) -> (frame: Frame)
        ensures
            frame@ == chunk_frame(
                payload@,
                match parsed {
                    Some(json) => Some(json@),
                    None => None,
                },
            ),
    {
        let event = match parsed {
            Some(json) => CompletionDeltaEvent::from_json(json),
            None => None,
        };
        match event {
            Some(e) => Frame::Delta(e),
            None => Frame::Malformed(MalformedChunkError { raw_text: copy_bytes(payload) }),
        }
    }

    /// Decodes one line of the body, taken without its line feed.
    pub fn of_line(line: &[u8]) -> (frame: Frame)
        ensures
            frame@ == frame_of(line@),
    {
        match Frame::payload(line) {
            None => Frame::Noise,
            Some(payload) => {
                if Frame::is_done(payload) {
                    Frame::Done
                } else {
                    match parse_json(payload) {
                        Some(json) => Frame::of_chunk(payload, Some(&json)),
                        None => Frame::of_chunk(payload, None),
                    }
                }
            },
        }
    }
}

} // verus!

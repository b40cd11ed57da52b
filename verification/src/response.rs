//! One streamed completion chunk, and how it is read out of a JSON document.

use vstd::prelude::*;
use vstd::string::*;

use crate::json::{lemma_array_view, Json, JsonValue};

verus! {

/// What one choice adds to the answer.
#[derive(Debug, PartialEq, Eq)]
pub struct Delta {
    pub content: Option<String>,
}

#[derive(Debug, PartialEq, Eq)]
pub struct Choice {
    pub delta: Delta,
}

/// A completion chunk: the choices of one streamed update.
#[derive(Debug, PartialEq, Eq)]
pub struct ChatCompletionResponse {
    pub choices: Vec<Choice>,
}

/// The content of a `delta` document: `Some(None)` where the document is an object whose
/// `content` is absent or null, `Some(Some(text))` where it is a string, and `None`
/// where the document is no such object.
pub open spec fn delta_content(delta: JsonValue) -> Option<Option<Seq<char>>> {
    if delta is Object {
        match delta.member("content"@) {
            None => Some(None),
            Some(JsonValue::Null) => Some(None),
            Some(JsonValue::Text(text)) => Some(Some(text)),
            Some(_) => None,
        }
    } else {
        None
    }
}

/// The content of a choice document, which has to be an object with a `delta`.
pub open spec fn choice_content(choice: JsonValue) -> Option<Option<Seq<char>>> {
    match choice.member("delta"@) {
        Some(delta) => delta_content(delta),
        None => None,
    }
}

/// The contents of the choices of a chunk document: an object whose `choices` is an
/// array of choice documents. `None` where the document is not of that form.
pub open spec fn chunk_contents(document: JsonValue) -> Option<Seq<Option<Seq<char>>>> {
    match document.member("choices"@) {
        Some(JsonValue::Array(items)) => {
            if forall|i: int| 0 <= i < items.len() ==> choice_content(#[trigger] items[i]) is Some {
                Some(Seq::new(items.len(), |i: int| choice_content(items[i])->0))
            } else {
                None
            }
        },
        _ => None,
    }
}

impl View for Delta {
    type V = Option<Seq<char>>;

    open spec fn view(&self) -> Option<Seq<char>> {
        match self.content {
            Some(text) => Some(text@),
            None => None,
        }
    }
}

impl View for ChatCompletionResponse {
    type V = Seq<Option<Seq<char>>>;

    /// The content of each choice, in order.
    open spec fn view(&self) -> Seq<Option<Seq<char>>> {
        Seq::new(self.choices@.len(), |i: int| self.choices@[i].delta@)
    }
}

impl Delta {
    /// Reads a `delta` document.
    pub fn from_json(json: &Json) -> (delta: Option<Delta>)
        ensures
            match delta {
                Some(d) => delta_content(json@) == Some(d@),
                None => delta_content(json@) is None,
            },
    {
        match json {
            Json::Object(_) => {},
            _ => {
                return None;
            },
        }
        match json.member("content") {
            None => Some(Delta { content: None }),
            Some(Json::Null) => Some(Delta { content: None }),
            Some(Json::Text(text)) => Some(Delta { content: Some(text.clone()) }),
            Some(_) => None,
        }
    }
}

impl Choice {
    /// Reads a choice document.
    pub fn from_json(json: &Json) -> (choice: Option<Choice>)
        ensures
            match choice {
                Some(c) => choice_content(json@) == Some(c.delta@),
                None => choice_content(json@) is None,
            },
    {
        match json.member("delta") {
            Some(delta_json) => match Delta::from_json(delta_json) {
                Some(delta) => Some(Choice { delta }),
                None => None,
            },
            None => None,
        }
    }
}

impl ChatCompletionResponse {
    /// The text that the chunk adds: the content of the first choice, empty where that
    /// choice has none.
    pub open spec fn spec_content(&self) -> Seq<char> {
        match self@[0] {
            Some(text) => text,
            None => Seq::empty(),
        }
    }

    /// The content of the first choice, or the empty text where it has none.
    pub fn content(&self) -> (text: &str)
        requires
            self.choices@.len() > 0,
        ensures
            text@ == self.spec_content(),
    {
        match &self.choices[0].delta.content {
            Some(text) => text.as_str(),
            None => {
                proof {
                    reveal_strlit("");
                }
                ""
            },
        }
    }

    /// Reads a chunk document: every choice has to be of the expected form.
    pub fn from_json(json: &Json) -> (response: Option<ChatCompletionResponse>)
        ensures
            match response {
                Some(r) => chunk_contents(json@) == Some(r@),
                None => chunk_contents(json@) is None,
            },
    {
        match json.member("choices") {
            Some(Json::Array(items)) => {
                let ghost documents = Json::Array(*items)@->Array_0;
                proof {
                    lemma_array_view(*items);
                    assert(json@.member("choices"@) == Some(JsonValue::Array(documents)));
                }
                let mut choices: Vec<Choice> = Vec::new();
                let mut i: usize = 0;
                while i < items.len()
                    invariant
                        i <= items@.len(),
                        json@.member("choices"@) == Some(JsonValue::Array(documents)),
                        documents.len() == items@.len(),
                        forall|k: int| 0 <= k < items@.len() ==> documents[k] == items@[k]@,
                        choices@.len() == i,
                        forall|k: int|
                            0 <= k < i ==> choice_content(documents[k]) == Some(
                                (#[trigger] choices@[k]).delta@,
                            ),
                    decreases items@.len() - i,
                {
                    match Choice::from_json(&items[i]) {
                        Some(choice) => {
                            choices.push(choice);
                        },
                        None => {
                            assert(choice_content(documents[i as int]) is None);
                            return None;
                        },
                    }
                    i += 1;
                }
                let response = ChatCompletionResponse { choices };
                proof {
                    assert forall|k: int| 0 <= k < documents.len() implies choice_content(
                        #[trigger] documents[k],
                    ) == Some(response.choices@[k].delta@) by {}
                    assert(response@ =~= chunk_contents(json@)->0);
                }
                Some(response)
            },
            _ => None,
        }
    }
}

} // verus!

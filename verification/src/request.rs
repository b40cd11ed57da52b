//! The outbound chat-completion request.

use vstd::prelude::*;
use vstd::string::*;

use crate::json::{lemma_array_view, lemma_object_view, Json, JsonField, JsonValue};

verus! {

/// One message of a conversation.
#[derive(Debug, PartialEq, Eq)]
pub struct Message {
    pub role: String,
    pub content: String,
}

/// The body of a chat-completion request.
#[derive(Debug, PartialEq, Eq)]
pub struct ChatCompletionRequest {
    pub model: String,
    pub messages: Vec<Message>,
    pub stream: bool,
}

/// One HTTP header.
#[derive(Debug, PartialEq, Eq)]
pub struct Header {
    pub name: String,
    pub value: String,
}

/// A message as it stands in the request body: an object with `role` and `content`.
pub open spec fn message_document(message: Message) -> JsonValue {
    JsonValue::Object(
        seq![
            ("role"@, JsonValue::Text(message.role@)),
            ("content"@, JsonValue::Text(message.content@)),
        ],
    )
}

/// The request body: an object with `model`, `messages` and `stream`, in this order.
pub open spec fn request_document(request: ChatCompletionRequest) -> JsonValue {
    JsonValue::Object(
        seq![
            ("model"@, JsonValue::Text(request.model@)),
            (
                "messages"@,
                JsonValue::Array(
                    Seq::new(
                        request.messages@.len(),
                        |i: int| message_document(request.messages@[i]),
                    ),
                ),
            ),
            ("stream"@, JsonValue::Bool(request.stream)),
        ],
    )
}

/// An object member that holds a text.
fn text_field(name: &str, text: &str) -> (field: JsonField)
    ensures
        field.name@ == name@,
        field.value@ == JsonValue::Text(text@),
{
    JsonField { name: name.to_owned(), value: Json::Text(text.to_owned()) }
}

impl Message {
    pub fn new(role: &str, content: &str) -> (message: Message)
        ensures
            message.role@ == role@,
            message.content@ == content@,
    {
        Message { role: role.to_owned(), content: content.to_owned() }
    }

    /// The message as a JSON document.
    pub fn to_json(&self) -> (json: Json)
        ensures
            json@ == message_document(*self),
    {
        let mut fields: Vec<JsonField> = Vec::new();
        fields.push(text_field("role", self.role.as_str()));
        fields.push(text_field("content", self.content.as_str()));
        proof {
            lemma_object_view(fields);
            assert(Json::Object(fields)@->Object_0 =~= message_document(*self)->Object_0);
        }
        Json::Object(fields)
    }
}

impl ChatCompletionRequest {
    /// A request holds at least one message and asks for a streamed answer.
    pub open spec fn wf(&self) -> bool {
        self.messages@.len() > 0 && self.stream
    }

    /// The request for `messages` to `model`. The answer is always asked for as a
    /// stream.
    pub fn build(model: &str, messages: Vec<Message>) -> (request: ChatCompletionRequest)
        requires
            messages@.len() > 0,
        ensures
            request.wf(),
            request.model@ == model@,
            request.messages == messages,
            request.stream,
    {
        ChatCompletionRequest { model: model.to_owned(), messages, stream: true }
    }

    /// The request body as a JSON document.
    pub fn to_json(&self) -> (json: Json)
        ensures
            json@ == request_document(*self),
    {
        let mut items: Vec<Json> = Vec::new();
        let mut i: usize = 0;
        while i < self.messages.len()
            invariant
                i <= self.messages@.len(),
                items@.len() == i,
                forall|k: int| 0 <= k < i ==> (#[trigger] items@[k])@ == message_document(
                    self.messages@[k],
                ),
            decreases self.messages@.len() - i,
        {
            items.push(self.messages[i].to_json());
            i += 1;
        }
        let ghost documents = Seq::new(
            self.messages@.len(),
            |i: int| message_document(self.messages@[i]),
        );
        proof {
            lemma_array_view(items);
            assert(Json::Array(items)@->Array_0 =~= documents);
        }
        let mut fields: Vec<JsonField> = Vec::new();
        fields.push(text_field("model", self.model.as_str()));
        fields.push(JsonField { name: "messages".to_owned(), value: Json::Array(items) });
        fields.push(JsonField { name: "stream".to_owned(), value: Json::Bool(self.stream) });
        proof {
            lemma_object_view(fields);
            assert(Json::Object(fields)@->Object_0 =~= request_document(*self)->Object_0);
        }
        Json::Object(fields)
    }
}

/// The value of the authorization header for `credential`.
pub open spec fn bearer(credential: Seq<char>) -> Seq<char> {
    "Bearer "@ + credential
}

/// The URL of the chat-completion endpoint under `base_url`.
pub open spec fn endpoint(base_url: Seq<char>) -> Seq<char> {
    base_url + "/chat/completions"@
}

impl Header {
    pub fn new(name: &str, value: &str) -> (header: Header)
        ensures
            header.name@ == name@,
            header.value@ == value@,
    {
        Header { name: name.to_owned(), value: value.to_owned() }
    }

    /// The header that carries the bearer credential.
    pub fn authorization(credential: &str) -> (header: Header)
        ensures
            header.name@ == "Authorization"@,
            header.value@ == bearer(credential@),
    {
        let mut value = "Bearer ".to_owned();
        value.append(credential);
        Header { name: "Authorization".to_owned(), value }
    }

    /// The header that declares a JSON body.
    pub fn json_content_type() -> (header: Header)
        ensures
            header.name@ == "Content-Type"@,
            header.value@ == "application/json"@,
    {
        Header::new("Content-Type", "application/json")
    }
}

/// The URL of the chat-completion endpoint under `base_url`: the base URL with the
/// fixed path behind it.
pub fn endpoint_url(base_url: &str) -> (url: String)
    ensures
        url@ == endpoint(base_url@),
{
    let mut url = base_url.to_owned();
    url.append("/chat/completions");
    url
}

} // verus!

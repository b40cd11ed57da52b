//! The configuration that an exchange is prepared from.

use vstd::hash_map::StringHashMap;
use vstd::prelude::*;
use vstd::string::*;

use crate::error::ConfigError;
use crate::request::{bearer, endpoint, endpoint_url, ChatCompletionRequest, Header, Message};
use crate::template::Prompt;

verus! {

/// The milliseconds that one exchange may take: a minute.
pub const DEFAULT_TIMEOUT_MS: u64 = 60_000;

/// The prompt templates by name.
pub struct Prompts {
    pub prompts: StringHashMap<Prompt>,
}

/// The endpoint settings.
#[derive(Debug, PartialEq, Eq)]
pub struct API {
    pub model: String,
    pub api_key: Option<String>,
    pub base_url: Option<String>,
}

pub struct Config {
    pub prompts: Prompts,
    pub api: API,
}

/// All that is needed to open one exchange.
#[derive(Debug, PartialEq, Eq)]
pub struct Exchange {
    pub url: String,
    pub headers: Vec<Header>,
    pub request: ChatCompletionRequest,
    pub timeout_ms: u64,
}

impl Prompts {
    pub fn new() -> (prompts: Prompts)
        ensures
            prompts.prompts@ == Map::<Seq<char>, Prompt>::empty(),
    {
        Prompts { prompts: StringHashMap::new() }
    }

    /// Sets the template of the name `name`.
    pub fn insert(&mut self, name: String, prompt: Prompt)
        ensures
            final(self).prompts@ == old(self).prompts@.insert(name@, prompt),
    {
        self.prompts.insert(name, prompt);
    }
}

impl Config {
    /// The template of the name `name`, if there is one.
    pub fn get_prompt(&self, name: &str) -> (found: Option<&Prompt>)
        ensures
            match found {
                Some(prompt) => self.prompts.prompts@.contains_key(name@) && *prompt
                    == self.prompts.prompts@[name@],
                None => !self.prompts.prompts@.contains_key(name@),
            },
    {
        self.prompts.prompts.get(name)
    }

    /// What stands in the way of an exchange under the template `mode`, the first of:
    /// no such template, no credential, no base URL.
    pub open spec fn lacks(&self, mode: Seq<char>) -> Option<ConfigError> {
        if !self.prompts.prompts@.contains_key(mode) {
            Some(ConfigError::PromptNotFound)
        } else if self.api.api_key is None {
            Some(ConfigError::MissingCredential)
        } else if self.api.base_url is None {
            Some(ConfigError::MissingBaseUrl)
        } else {
            None
        }
    }

    /// Prepares the exchange that sends `message` under the template `mode`: one
    /// `system` message with the rendered text, to the configured model, with the
    /// bearer credential and a JSON content type, within the default timeout.
    pub fn prepare(&self, mode: &str, message: &str) -> (prepared: Result<Exchange, ConfigError>)
        ensures
            match prepared {
                Err(error) => self.lacks(mode@) == Some(error),
                Ok(exchange) => {
                    &&& self.lacks(mode@) is None
                    &&& exchange.url@ == endpoint(self.api.base_url->0@)
                    &&& exchange.headers@.len() == 2
                    &&& exchange.headers@[0].name@ == "Authorization"@
                    &&& exchange.headers@[0].value@ == bearer(self.api.api_key->0@)
                    &&& exchange.headers@[1].name@ == "Content-Type"@
                    &&& exchange.headers@[1].value@ == "application/json"@
                    &&& exchange.request.wf()
                    &&& exchange.request.model@ == self.api.model@
                    &&& exchange.request.messages@.len() == 1
                    &&& exchange.request.messages@[0].role@ == "system"@
                    &&& exchange.request.messages@[0].content@ == self.prompts.prompts@[mode@].rendered(
                        message@,
                    )
                    &&& exchange.timeout_ms == DEFAULT_TIMEOUT_MS
                },
            },
    {
        let prompt = match self.get_prompt(mode) {
            Some(prompt) => prompt,
            None => {
                return Err(ConfigError::PromptNotFound);
            },
        };
        let credential = match &self.api.api_key {
            Some(key) => key,
            None => {
                return Err(ConfigError::MissingCredential);
            },
        };
        let base_url = match &self.api.base_url {
            Some(url) => url,
            None => {
                return Err(ConfigError::MissingBaseUrl);
            },
        };
        let body = prompt.render(message);
        let mut messages: Vec<Message> = Vec::new();
        messages.push(Message::new("system", body.as_str()));
        let mut headers: Vec<Header> = Vec::new();
        headers.push(Header::authorization(credential.as_str()));
        headers.push(Header::json_content_type());
        Ok(
            Exchange {
                url: endpoint_url(base_url.as_str()),
                headers,
                request: ChatCompletionRequest::build(self.api.model.as_str(), messages),
                timeout_ms: DEFAULT_TIMEOUT_MS,
            },
        )
    }
}

} // verus!

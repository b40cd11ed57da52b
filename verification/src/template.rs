//! Prompt templates: a prefix and a suffix placed around the user's text.

use vstd::prelude::*;
use vstd::string::*;

verus! {

/// A named prompt template as it is configured.
#[derive(Debug, PartialEq, Eq)]
pub struct Prompt {
    pub description: String,
    pub prefix: Option<String>,
    pub suffix: Option<String>,
}

/// The text that an optional part of a template contributes.
pub open spec fn part_text(part: Option<String>) -> Seq<char> {
    match part {
        Some(text) => text@,
        None => Seq::empty(),
    }
}

impl Prompt {
    /// The message body that this template makes of `user_text`.
    pub open spec fn rendered(&self, user_text: Seq<char>) -> Seq<char> {
        part_text(self.prefix) + user_text + part_text(self.suffix)
    }

    /// Places the prefix before `user_text` and the suffix after it, adding nothing else.
    pub fn render(&self, user_text: &str) -> (body: String)
        ensures
            body@ == self.rendered(user_text@),
    {
        let mut body = String::new();
        match &self.prefix {
            Some(prefix) => body.append(prefix.as_str()),
            None => {},
        }
        body.append(user_text);
        match &self.suffix {
            Some(suffix) => body.append(suffix.as_str()),
            None => {},
        }
        body
    }
}

} // verus!

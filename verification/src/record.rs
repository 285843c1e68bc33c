//! The two messages of a generation exchange, and the rule that decides
//! whether a text is one complete response record.

use vstd::prelude::*;
use vstd::string::StringExecFns;
use crate::json::{as_text, member, parse, parsed, value_model, Json};

verus! {

/// Where generation requests are posted.
pub const GENERATE_URL: &'static str = "http://localhost:11434/api/generate";

/// The body of a generation request: which model to ask, and what. Made once
/// per request and not changed afterwards.
#[derive(Debug)]
pub struct GenerationRequest {
    model: String,
    prompt: String,
}

impl GenerationRequest {
    /// The model that the request names.
    pub closed spec fn model_spec(&self) -> String {
        self.model
    }

    /// The prompt that the request carries.
    pub closed spec fn prompt_spec(&self) -> String {
        self.prompt
    }

    /// A request to `model` with `prompt`.
    pub fn new(model: String, prompt: String) -> (r: Self)
        ensures
            r.model_spec() == model,
            r.prompt_spec() == prompt,
    {
        GenerationRequest { model, prompt }
    }

    /// The model that the request names.
    pub fn model(&self) -> (r: &str)
        ensures
            r@ == self.model_spec()@,
    {
        self.model.as_str()
    }

    /// The prompt that the request carries.
    pub fn prompt(&self) -> (r: &str)
        ensures
            r@ == self.prompt_spec()@,
    {
        self.prompt.as_str()
    }

    /// Takes the request apart into model and prompt.
    pub fn into_parts(self) -> (r: (String, String))
        ensures
            r.0 == self.model_spec(),
            r.1 == self.prompt_spec(),
    {
        (self.model, self.prompt)
    }
}

/// One record of a generation response: a piece of the generated text.
#[derive(Debug)]
pub struct GenerationResponseChunk {
    pub response: String,
}

impl View for GenerationResponseChunk {
    type V = Seq<char>;

    /// The text the record carries.
    open spec fn view(&self) -> Seq<char> {
        self.response@
    }
}

/// The name of the member that carries the text of a response record.
pub open spec fn response_key() -> Seq<char> {
    "response"@
}

/// The text of the record that `document` is, if it is one: an object whose
/// member `response` is a string. Other members are ignored.
pub open spec fn record_in(document: Json) -> Option<Seq<char>> {
    match document {
        Json::Object(members) => if members.contains_key(response_key()) {
            match members[response_key()] {
                Json::Text(response) => Some(response),
                _ => None,
            }
        } else {
            None
        },
        _ => None,
    }
}

/// The text of the record that `text` spells, if it spells one: the whole of
/// `text` is one JSON document, and the document is a record.
pub open spec fn record_of(text: Seq<char>) -> Option<Seq<char>> {
    match parsed(text) {
        Some(document) => record_in(document),
        None => None,
    }
}

/// Reads a parsed document as a response record.
///
/// Returns the record exactly when the document is an object with a string
/// member `response`.
pub fn read_record(document: &serde_json::Value) -> (r: Option<GenerationResponseChunk>)
    ensures
        match r {
            Some(record) => record_in(value_model(*document)) == Some(record@),
            None => record_in(value_model(*document)) is None,
        },
{
    match member(document, "response") {
        Some(field) => match as_text(field) {
            Some(response) => Some(GenerationResponseChunk { response: String::from_str(response) }),
            None => None,
        },
        None => None,
    }
}

/// Reads `text` as one response record.
///
/// Returns the record exactly when the whole of `text` is a JSON object with
/// a string member `response`; `None` for incomplete, malformed or otherwise
/// shaped input.
pub fn parse_record(text: &str) -> (r: Option<GenerationResponseChunk>)
    ensures
        match r {
            Some(record) => record_of(text@) == Some(record@),
            None => record_of(text@) is None,
        },
{
    match parse(text) {
        Some(document) => read_record(&document),
        None => None,
    }
}

} // verus!

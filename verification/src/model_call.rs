//! The chat backend's protocol: what is sent for a prompt, and what a reply
//! means. The request itself is made by the program around the library.
//!
//! JSON is read and written by `serde_json`.

use crate::error::{ShellError, ShellErrorView};
use crate::text::text_of;
use vstd::prelude::*;

verus! {

/// `serde_json::Value`, carried through as an opaque value.
#[verifier::external_type_specification]
#[verifier::external_body]
pub struct ExJsonValue(serde_json::Value);

/// Where the backend is, and how to talk to it.
pub struct Config {
    api_url: String,
    api_key: String,
    model_name: String,
}

/// The mathematical view of a `Config`.
pub struct ConfigView {
    pub api_url: Seq<char>,
    pub api_key: Seq<char>,
    pub model_name: Seq<char>,
}

impl View for Config {
    type V = ConfigView;

    closed spec fn view(&self) -> ConfigView {
        ConfigView {
            api_url: self.api_url@,
            api_key: self.api_key@,
            model_name: self.model_name@,
        }
    }
}

impl Config {
    /// A configuration with this address, this key and this model.
    pub fn new(url: String, key: String, name: String) -> (r: Self)
        ensures
            r@ == (ConfigView { api_url: url@, api_key: key@, model_name: name@ }),
    {
        Self { api_url: url, api_key: key, model_name: name }
    }

    /// The address that requests are posted to.
    pub fn api_url(&self) -> (r: &str)
        ensures
            r@ == self@.api_url,
    {
        self.api_url.as_str()
    }

    /// The key that authorises requests.
    pub fn api_key(&self) -> (r: &str)
        ensures
            r@ == self@.api_key,
    {
        self.api_key.as_str()
    }

    /// The name of the model that answers.
    pub fn model_name(&self) -> (r: &str)
        ensures
            r@ == self@.model_name,
    {
        self.model_name.as_str()
    }

    /// The value of the request's `Authorization` header: `Bearer` and the key.
    pub fn authorization(&self) -> (r: String)
        ensures
            r@ == "Bearer "@ + self@.api_key,
    {
        let mut value = "Bearer ".to_owned();
        value.append(self.api_key.as_str());
        value
    }

    /// The body of the request that asks the model `message`.
    pub fn request_body(&self, message: &str) -> (r: String)
        ensures
            r@ == payload_text(json_string(self@.model_name), json_string(message@)),
    {
        let model = json_quote(self.model_name.as_str());
        let content = json_quote(message);
        payload(model.as_str(), content.as_str())
    }
}

/// The hexadecimal digit, in lower case, for a number below sixteen.
pub open spec fn hex_digit(d: int) -> char {
    if d == 0 {
        '0'
    } else if d == 1 {
        '1'
    } else if d == 2 {
        '2'
    } else if d == 3 {
        '3'
    } else if d == 4 {
        '4'
    } else if d == 5 {
        '5'
    } else if d == 6 {
        '6'
    } else if d == 7 {
        '7'
    } else if d == 8 {
        '8'
    } else if d == 9 {
        '9'
    } else if d == 10 {
        'a'
    } else if d == 11 {
        'b'
    } else if d == 12 {
        'c'
    } else if d == 13 {
        'd'
    } else if d == 14 {
        'e'
    } else {
        'f'
    }
}

/// A character as it stands inside a JSON string literal. The double quote
/// and the backslash get a backslash before them; backspace, tab, line feed,
/// form feed and carriage return are written `\b`, `\t`, `\n`, `\f`, `\r`;
/// any other character below U+0020 is written `\u00` and its two
/// hexadecimal digits; every other character stands for itself.
pub open spec fn escaped_char(c: char) -> Seq<char> {
    if c == '"' {
        seq!['\\', '"']
    } else if c == '\\' {
        seq!['\\', '\\']
    } else if c == '\u{8}' {
        seq!['\\', 'b']
    } else if c == '\t' {
        seq!['\\', 't']
    } else if c == '\n' {
        seq!['\\', 'n']
    } else if c == '\u{C}' {
        seq!['\\', 'f']
    } else if c == '\r' {
        seq!['\\', 'r']
    } else if c <= '\u{1F}' {
        let code = c as u32 as int;
        seq!['\\', 'u', '0', '0'].push(hex_digit(code / 16)).push(hex_digit(code % 16))
    } else {
        seq![c]
    }
}

/// A text with each of its characters as it stands inside a JSON string literal.
pub open spec fn escaped(text: Seq<char>) -> Seq<char>
    decreases text.len(),
{
    if text.len() == 0 {
        text
    } else {
        escaped_char(text[0]) + escaped(text.skip(1))
    }
}

/// The JSON string literal for a text: the escaped text between double quotes.
pub open spec fn json_string(text: Seq<char>) -> Seq<char> {
    seq!['"'] + escaped(text) + seq!['"']
}

/// `serde_json::to_string`, for a string slice: the slice as a JSON string
/// literal, in the compact form. The call writes into memory and a string
/// slice always serialises, so there is no error to hand on.
#[verifier::external_body]
fn json_quote(text: &str) -> (r: String)
    ensures
        r@ == json_string(text@),
{
    serde_json::to_string(text).unwrap_or_default()
}

/// The request body for a model and a message that are already JSON string
/// literals: one object that names the model and holds one message, from the user.
pub open spec fn payload_text(model: Seq<char>, content: Seq<char>) -> Seq<char> {
    "{\"model\":"@ + model + ",\"messages\":[{\"role\":\"user\",\"content\":"@ + content + "}]}"@
}

/// Writes the request body around two JSON string literals.
pub fn payload(model: &str, content: &str) -> (r: String)
    ensures
        r@ == payload_text(model@, content@),
{
    let mut body = "{\"model\":".to_owned();
    body.append(model);
    body.append(",\"messages\":[{\"role\":\"user\",\"content\":");
    body.append(content);
    body.append("}]}");
    body
}

/// What a JSON value holds. A number counts as a number, whatever its value.
pub enum JsonView {
    Null,
    Bool(bool),
    Number,
    Text(Seq<char>),
    List(Seq<JsonView>),
    Record(Map<Seq<char>, JsonView>),
}

/// What a `serde_json::Value` holds.
pub uninterp spec fn json_view(value: serde_json::Value) -> JsonView;

/// The document that a text holds, as `serde_json::from_str` reads it;
/// `None` where the text is no JSON.
pub uninterp spec fn json_document(text: Seq<char>) -> Option<JsonView>;

/// The member of an object under a key; `None` where the value is no object
/// or has no such member.
pub open spec fn member_of(value: JsonView, key: Seq<char>) -> Option<JsonView> {
    match value {
        JsonView::Record(members) => if members.dom().contains(key) {
            Some(members[key])
        } else {
            None
        },
        _ => None,
    }
}

/// The element of an array at an index; `None` where the value is no array
/// or is not that long.
pub open spec fn element_of(value: JsonView, index: int) -> Option<JsonView> {
    match value {
        JsonView::List(elements) => if 0 <= index < elements.len() {
            Some(elements[index])
        } else {
            None
        },
        _ => None,
    }
}

/// The text of a string; `None` where the value is no string.
pub open spec fn text_in(value: JsonView) -> Option<Seq<char>> {
    match value {
        JsonView::Text(text) => Some(text),
        _ => None,
    }
}

/// What an optional reference to a `serde_json::Value` holds.
pub open spec fn held(value: Option<&serde_json::Value>) -> Option<JsonView> {
    match value {
        Some(found) => Some(json_view(*found)),
        None => None,
    }
}

/// The answer in a document: the string at `choices[0].message.content`.
pub open spec fn content_of(document: JsonView) -> Option<Seq<char>> {
    match member_of(document, "choices"@) {
        Some(choices) => match element_of(choices, 0) {
            Some(first) => match member_of(first, "message"@) {
                Some(message) => match member_of(message, "content"@) {
                    Some(content) => text_in(content),
                    None => None,
                },
                None => None,
            },
            None => None,
        },
        None => None,
    }
}

/// The answer in a reply's body: that of the document it holds, where it
/// holds one.
pub open spec fn reply_answer(body: Seq<char>) -> Option<Seq<char>> {
    match json_document(body) {
        Some(document) => content_of(document),
        None => None,
    }
}

/// `serde_json::from_str`, into a `Value`: the document that the text holds,
/// or `None` where the text is no JSON.
#[verifier::external_body]
fn json_parse(text: &str) -> (r: Option<serde_json::Value>)
    ensures
        json_document(text@) == match r {
            Some(value) => Some(json_view(value)),
            None => None,
        },
{
    serde_json::from_str(text).ok()
}

/// `Value::get` with a key: the member of that name, where the value is an
/// object that has one, and `None` otherwise.
#[verifier::external_body]
fn json_member<'a>(value: &'a serde_json::Value, key: &str) -> (r: Option<&'a serde_json::Value>)
    ensures
        held(r) == member_of(json_view(*value), key@),
{
    value.get(key)
}

/// `Value::get` with an index: the element at that place, where the value is
/// an array that long, and `None` otherwise.
#[verifier::external_body]
fn json_element<'a>(value: &'a serde_json::Value, index: usize) -> (r: Option<
    &'a serde_json::Value,
>)
    ensures
        held(r) == element_of(json_view(*value), index as int),
{
    value.get(index)
}

/// `Value::as_str`: the text, where the value is a string, and `None` otherwise.
#[verifier::external_body]
fn json_text(value: &serde_json::Value) -> (r: Option<String>)
    ensures
        text_of(r) == text_in(json_view(*value)),
{
    value.as_str().map(String::from)
}

/// The answer in a reply's body: the string at `choices[0].message.content`.
/// `None` where the body is no JSON or holds no string there.
fn reply_content(body: &str) -> (r: Option<String>)
    ensures
        text_of(r) == reply_answer(body@),
{
    let document = json_parse(body)?;
    let choices = json_member(&document, "choices")?;
    let first = json_element(choices, 0)?;
    let message = json_member(first, "message")?;
    let content = json_member(message, "content")?;
    json_text(content)
}

/// What came back for a request.
#[derive(Debug)]
pub enum Reply {
    /// A response that reports success, with its body.
    Answered(String),
    /// A response that reports failure, with what reading its body gave.
    Refused(String),
    /// No response, with what the connection error says.
    Unreachable(String),
}

/// What the shell shows for an answer: `AI: ` and the answer, on a line of
/// its own after an empty line.
pub open spec fn answer_text(content: Seq<char>) -> Seq<char> {
    "\nAI: "@ + content + "\n"@
}

/// What an answer, or the lack of one, makes of a successful response.
pub open spec fn answer_result(content: Option<Seq<char>>) -> Result<Seq<char>, ShellErrorView> {
    match content {
        Some(text) => Ok(answer_text(text)),
        None => Err(ShellErrorView::Llm("Unknown API Error"@)),
    }
}

/// Turns the answer found in a successful response into the text to show;
/// a response without an answer is an error.
pub fn answer_from(content: Option<String>) -> (r: Result<String, ShellError>)
    ensures
        match answer_result(text_of(content)) {
            Ok(text) => r matches Ok(shown) && shown@ == text,
            Err(error) => r matches Err(e) && e@ == error,
        },
{
    match content {
        Some(text) => {
            let mut shown = "\nAI: ".to_owned();
            shown.append(text.as_str());
            shown.append("\n");
            Ok(shown)
        },
        None => Err(ShellError::LLMError("Unknown API Error".to_owned())),
    }
}

/// What a reply means. A successful response gives the answer found in its
/// body, or an error where none is found; a response that reports failure
/// and a request that got no response are errors that say so.
pub fn interpret(reply: Reply) -> (r: Result<String, ShellError>)
    ensures
        match reply {
            Reply::Answered(body) => match answer_result(reply_answer(body@)) {
                Ok(text) => r matches Ok(shown) && shown@ == text,
                Err(error) => r matches Err(e) && e@ == error,
            },
            Reply::Refused(detail) => r matches Err(e) && e@ == ShellErrorView::Llm(
                "API Error: "@ + detail@,
            ),
            Reply::Unreachable(detail) => r matches Err(e) && e@ == ShellErrorView::Llm(
                "Connection Error: "@ + detail@,
            ),
        },
{
    match reply {
        Reply::Answered(body) => {
            let content = reply_content(body.as_str());
            answer_from(content)
        },
        Reply::Refused(detail) => {
            let mut text = "API Error: ".to_owned();
            text.append(detail.as_str());
            Err(ShellError::LLMError(text))
        },
        Reply::Unreachable(detail) => {
            let mut text = "Connection Error: ".to_owned();
            text.append(detail.as_str());
            Err(ShellError::LLMError(text))
        },
    }
}

} // verus!

//! The closed set of errors that the shell reports, and how each is rendered.

use vstd::prelude::*;

verus! {

/// `std::io::Error`, carried through as an opaque value.
#[verifier::external_type_specification]
#[verifier::external_body]
pub struct ExIoError(std::io::Error);

/// What went wrong while a line was parsed or a command was run.
#[derive(Debug)]
pub enum ShellError {
    ParseError(String),
    BuiltinError(String),
    IoError(std::io::Error),
    ExecuteError(String),
    LLMError(String),
    RedirectionError(String),
}

/// The mathematical view of a `ShellError`: its kind and its message. The
/// system error inside an `IoError` is opaque, so its view has no message.
pub enum ShellErrorView {
    Parse(Seq<char>),
    Builtin(Seq<char>),
    Io,
    Execute(Seq<char>),
    Llm(Seq<char>),
    Redirection(Seq<char>),
}

impl View for ShellError {
    type V = ShellErrorView;

    open spec fn view(&self) -> ShellErrorView {
        match self {
            ShellError::ParseError(m) => ShellErrorView::Parse(m@),
            ShellError::BuiltinError(m) => ShellErrorView::Builtin(m@),
            ShellError::IoError(_) => ShellErrorView::Io,
            ShellError::ExecuteError(m) => ShellErrorView::Execute(m@),
            ShellError::LLMError(m) => ShellErrorView::Llm(m@),
            ShellError::RedirectionError(m) => ShellErrorView::Redirection(m@),
        }
    }
}

impl ShellErrorView {
    /// The name of the error's category, as it is shown to the user.
    pub open spec fn category(self) -> Seq<char> {
        match self {
            ShellErrorView::Parse(_) => "Parse Error"@,
            ShellErrorView::Builtin(_) => "Builtin Error"@,
            ShellErrorView::Io => "IO Error"@,
            ShellErrorView::Execute(_) => "Execute Error"@,
            ShellErrorView::Llm(_) => "LLM Error"@,
            ShellErrorView::Redirection(_) => "Redirection Error"@,
        }
    }

    /// The message that the error carries; `None` for a system error.
    pub open spec fn detail(self) -> Option<Seq<char>> {
        match self {
            ShellErrorView::Parse(m) => Some(m),
            ShellErrorView::Builtin(m) => Some(m),
            ShellErrorView::Io => None,
            ShellErrorView::Execute(m) => Some(m),
            ShellErrorView::Llm(m) => Some(m),
            ShellErrorView::Redirection(m) => Some(m),
        }
    }
}

/// The text of an error: its category, a colon and a space, and the detail.
pub open spec fn rendered(category: Seq<char>, detail: Seq<char>) -> Seq<char> {
    category + ": "@ + detail
}

/// The line that reports an error to the user: `psh: ` and the error's text.
pub open spec fn reported(text: Seq<char>) -> Seq<char> {
    "psh: "@ + text
}

/// Renders a category and a detail as `<category>: <detail>`.
pub fn render(category: &str, detail: &str) -> (r: String)
    ensures
        r@ == rendered(category@, detail@),
{
    let mut text = category.to_owned();
    text.append(": ");
    text.append(detail);
    text
}

/// `<std::io::Error as Display>`: the text that the system error shows. What
/// it says depends on the error and on the platform, so nothing is claimed.
#[verifier::external_body]
fn io_error_text(err: &std::io::Error) -> (r: String) {
    err.to_string()
}

impl ShellError {
    /// The name of the error's category.
    pub fn category(&self) -> (r: &'static str)
        ensures
            r@ == self@.category(),
    {
        match self {
            ShellError::ParseError(_) => "Parse Error",
            ShellError::BuiltinError(_) => "Builtin Error",
            ShellError::IoError(_) => "IO Error",
            ShellError::ExecuteError(_) => "Execute Error",
            ShellError::LLMError(_) => "LLM Error",
            ShellError::RedirectionError(_) => "Redirection Error",
        }
    }

    /// The error as text, `<category>: <message>`. For a system error the
    /// message is the one that the system error shows.
    pub fn message(&self) -> (r: String)
        ensures
            match self@.detail() {
                Some(detail) => r@ == rendered(self@.category(), detail),
                None => exists|detail: Seq<char>| r@ == rendered(self@.category(), detail),
            },
    {
        match self {
            ShellError::ParseError(m) => render(self.category(), m.as_str()),
            ShellError::BuiltinError(m) => render(self.category(), m.as_str()),
            ShellError::IoError(err) => {
                let detail = io_error_text(err);
                render(self.category(), detail.as_str())
            },
            ShellError::ExecuteError(m) => render(self.category(), m.as_str()),
            ShellError::LLMError(m) => render(self.category(), m.as_str()),
            ShellError::RedirectionError(m) => render(self.category(), m.as_str()),
        }
    }

    /// The line written to standard error for this error: `psh: <category>: <message>`.
    pub fn report(&self) -> (r: String)
        ensures
            match self@.detail() {
                Some(detail) => r@ == reported(rendered(self@.category(), detail)),
                None => exists|detail: Seq<char>|
                    r@ == reported(rendered(self@.category(), detail)),
            },
    {
        let text = self.message();
        let mut line = "psh: ".to_owned();
        line.append(text.as_str());
        line
    }
}

impl From<std::io::Error> for ShellError {
    /// A failure of the file system or of a stream becomes an `IoError`.
    fn from(err: std::io::Error) -> (r: ShellError) {
        ShellError::IoError(err)
    }
}

impl vstd::std_specs::convert::FromSpecImpl<std::io::Error> for ShellError {
    open spec fn obeys_from_spec() -> bool {
        true
    }

    open spec fn from_spec(err: std::io::Error) -> ShellError {
        ShellError::IoError(err)
    }
}

} // verus!

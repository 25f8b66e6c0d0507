//! The two error types of the library, each with the message that a caller
//! shows for it.

use vstd::prelude::*;
use vstd::string::StringExecFns;

verus! {

/// Why a query could not be turned into a table.
#[derive(Debug, PartialEq, Eq)]
pub enum RenderError {
    /// No engine session could be opened; the text is the engine's.
    Session(String),
    /// The engine rejected the query before running it; the text is the
    /// engine's.
    Compile(String),
    /// The engine failed while running the query, and the text is the
    /// engine's; or it handed over batches that differ in their columns, and
    /// the text says so.
    Execution(String),
    /// The query ran and produced no batch at all, as a statement without a
    /// result schema does.
    NoResults,
    /// A cell could not be brought into display form; the text is the
    /// formatter's.
    Format(String),
}

/// The mathematical value of a [`RenderError`].
pub enum RenderErrorView {
    Session(Seq<char>),
    Compile(Seq<char>),
    Execution(Seq<char>),
    NoResults,
    Format(Seq<char>),
}

impl View for RenderError {
    type V = RenderErrorView;

    open spec fn view(&self) -> RenderErrorView {
        match self {
            RenderError::Session(text) => RenderErrorView::Session(text@),
            RenderError::Compile(text) => RenderErrorView::Compile(text@),
            RenderError::Execution(text) => RenderErrorView::Execution(text@),
            RenderError::NoResults => RenderErrorView::NoResults,
            RenderError::Format(text) => RenderErrorView::Format(text@),
        }
    }
}

/// The message for a render error: the text it carries, or a fixed sentence
/// where it carries none.
pub open spec fn render_message(error: RenderErrorView) -> Seq<char> {
    match error {
        RenderErrorView::Session(text) => text,
        RenderErrorView::Compile(text) => text,
        RenderErrorView::Execution(text) => text,
        RenderErrorView::NoResults => "No results returned"@,
        RenderErrorView::Format(text) => text,
    }
}

impl RenderError {
    /// The message to show for this error.
    pub fn message(&self) -> (text: String)
        ensures
            text@ == render_message(self@),
    {
        match self {
            RenderError::Session(text) => text.clone(),
            RenderError::Compile(text) => text.clone(),
            RenderError::Execution(text) => text.clone(),
            RenderError::NoResults => String::from_str("No results returned"),
            RenderError::Format(text) => text.clone(),
        }
    }
}

/// Why a directory could not be indexed.
#[derive(Debug, PartialEq, Eq)]
pub enum IndexError {
    /// The root directory does not exist.
    NotFound,
    /// The root directory at `path` exists and could not be read.
    Io { path: String },
}

/// The mathematical value of an [`IndexError`].
pub enum IndexErrorView {
    NotFound,
    Io { path: Seq<char> },
}

impl View for IndexError {
    type V = IndexErrorView;

    open spec fn view(&self) -> IndexErrorView {
        match self {
            IndexError::NotFound => IndexErrorView::NotFound,
            IndexError::Io { path } => IndexErrorView::Io { path: path@ },
        }
    }
}

/// The message for an index error.
pub open spec fn index_message(error: IndexErrorView) -> Seq<char> {
    match error {
        IndexErrorView::NotFound => "Directory not found"@,
        IndexErrorView::Io { path } => "Cannot read directory: "@ + path,
    }
}

impl IndexError {
    /// The message to show for this error.
    pub fn message(&self) -> (text: String)
        ensures
            text@ == index_message(self@),
    {
        match self {
            IndexError::NotFound => String::from_str("Directory not found"),
            IndexError::Io { path } => {
                let mut text = String::from_str("Cannot read directory: ");
                text.append(path.as_str());
                text
            },
        }
    }
}

} // verus!

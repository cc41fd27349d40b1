use vstd::prelude::*;

verus! {

/// Failures that a tuggy operation reports.
#[derive(Debug)]
pub enum TuggyError {
    IOError(String),
    UnsupportedPathError(String),
    PathRenderError(String),
    UnknownMimetypeError(String),
    RegexParseError(String),
    TOMLParseError(String),
}

/// The mathematical value of an error: its variant and its message.
pub enum TuggyErrorView {
    IOError(Seq<char>),
    UnsupportedPathError(Seq<char>),
    PathRenderError(Seq<char>),
    UnknownMimetypeError(Seq<char>),
    RegexParseError(Seq<char>),
    TOMLParseError(Seq<char>),
}

impl View for TuggyError {
    type V = TuggyErrorView;

    open spec fn view(&self) -> TuggyErrorView {
        match self {
            TuggyError::IOError(m) => TuggyErrorView::IOError(m@),
            TuggyError::UnsupportedPathError(m) => TuggyErrorView::UnsupportedPathError(m@),
            TuggyError::PathRenderError(m) => TuggyErrorView::PathRenderError(m@),
            TuggyError::UnknownMimetypeError(m) => TuggyErrorView::UnknownMimetypeError(m@),
            TuggyError::RegexParseError(m) => TuggyErrorView::RegexParseError(m@),
            TuggyError::TOMLParseError(m) => TuggyErrorView::TOMLParseError(m@),
        }
    }
}

impl TuggyError {
    /// The text that every variant carries.
    pub open spec fn message(&self) -> Seq<char> {
        match self {
            TuggyError::IOError(m) => m@,
            TuggyError::UnsupportedPathError(m) => m@,
            TuggyError::PathRenderError(m) => m@,
            TuggyError::UnknownMimetypeError(m) => m@,
            TuggyError::RegexParseError(m) => m@,
            TuggyError::TOMLParseError(m) => m@,
        }
    }

    /// Renders the error for a console: the message it carries, unchanged.
    pub fn to_string(&self) -> (s: String)
        ensures
            s@ == self.message(),
    {
        match self {
            TuggyError::IOError(m) => m.clone(),
            TuggyError::UnsupportedPathError(m) => m.clone(),
            TuggyError::PathRenderError(m) => m.clone(),
            TuggyError::UnknownMimetypeError(m) => m.clone(),
            TuggyError::RegexParseError(m) => m.clone(),
            TuggyError::TOMLParseError(m) => m.clone(),
        }
    }
}

} // verus!

use crate::lvm::Separator;
use vstd::prelude::*;

verus! {

/// What went wrong while decoding.
#[derive(Clone, Debug, PartialEq, Eq)]
pub enum ErrorKind {
    /// A value was rejected by the parser of its own type, or a record was
    /// incomplete; the text is the parser's message.
    Deserialize(String),
    /// The character that closes the first line is no known separator.
    InvalidSeparator(char),
    /// The source of lines failed; the text is its message.
    Io(String),
    /// A token is no floating-point number; the text is the message.
    ParseFloatError(String),
    /// A token is no integer; the text is the message.
    ParseIntError(String),
    /// Text was found where a bare separator had to stand.
    ParseSeparatorExpected(String, Separator),
    /// Characters were left on a line that had to be finished.
    ParseEolExpected(String),
    /// The input ended where another line was needed.
    ParseEofUnexpected,
    /// The line ended where a token or a separator was needed.
    ParseEolUnexpected,
    /// A token is none of the literals that may stand in its place.
    ParseTokenUnexpected(String, Vec<String>),
    /// The file stores one x column per y column, a layout whose rows are
    /// not decoded.
    UnsupportedColumns,
}

/// The mathematical value of an [`ErrorKind`].
pub enum ErrorKindView {
    Deserialize(Seq<char>),
    InvalidSeparator(char),
    Io(Seq<char>),
    ParseFloatError(Seq<char>),
    ParseIntError(Seq<char>),
    ParseSeparatorExpected(Seq<char>, Separator),
    ParseEolExpected(Seq<char>),
    ParseEofUnexpected,
    ParseEolUnexpected,
    ParseTokenUnexpected(Seq<char>, Seq<Seq<char>>),
    UnsupportedColumns,
}

impl DeepView for ErrorKind {
    type V = ErrorKindView;

    open spec fn deep_view(&self) -> ErrorKindView {
        match *self {
            ErrorKind::Deserialize(m) => ErrorKindView::Deserialize(m@),
            ErrorKind::InvalidSeparator(c) => ErrorKindView::InvalidSeparator(c),
            ErrorKind::Io(m) => ErrorKindView::Io(m@),
            ErrorKind::ParseFloatError(m) => ErrorKindView::ParseFloatError(m@),
            ErrorKind::ParseIntError(m) => ErrorKindView::ParseIntError(m@),
            ErrorKind::ParseSeparatorExpected(t, s) => ErrorKindView::ParseSeparatorExpected(t@, s),
            ErrorKind::ParseEolExpected(t) => ErrorKindView::ParseEolExpected(t@),
            ErrorKind::ParseEofUnexpected => ErrorKindView::ParseEofUnexpected,
            ErrorKind::ParseEolUnexpected => ErrorKindView::ParseEolUnexpected,
            ErrorKind::ParseTokenUnexpected(t, e) => ErrorKindView::ParseTokenUnexpected(
                t@,
                e.deep_view(),
            ),
            ErrorKind::UnsupportedColumns => ErrorKindView::UnsupportedColumns,
        }
    }
}

/// A failure of the decoder: its cause, and the line context around it, the
/// innermost line first. Line numbers start at 1. The decoder puts every
/// failure into the context of the one line on which it stopped.
#[derive(Clone, Debug, PartialEq, Eq)]
pub struct Error {
    /// The cause.
    pub kind: ErrorKind,
    /// The line context, innermost first.
    pub lines: Vec<usize>,
}

/// The mathematical value of an [`Error`].
pub struct ErrorView {
    pub kind: ErrorKindView,
    pub lines: Seq<int>,
}

impl ErrorView {
    /// The error with one more frame of line context around it.
    pub open spec fn on_line(self, line: int) -> ErrorView {
        ErrorView { kind: self.kind, lines: self.lines.push(line) }
    }

    /// The error without any line context.
    pub open spec fn bare(kind: ErrorKindView) -> ErrorView {
        ErrorView { kind, lines: Seq::empty() }
    }

    /// The error in the context of the one line on which it was found.
    pub open spec fn at(kind: ErrorKindView, line: int) -> ErrorView {
        ErrorView::bare(kind).on_line(line)
    }
}

impl DeepView for Error {
    type V = ErrorView;

    open spec fn deep_view(&self) -> ErrorView {
        ErrorView {
            kind: self.kind.deep_view(),
            lines: self.lines@.map_values(|l: usize| l as int),
        }
    }
}

impl Error {
    /// An error without line context.
    pub fn new(kind: ErrorKind) -> (e: Error)
        ensures
            e.deep_view() == ErrorView::bare(kind.deep_view()),
    {
        let e = Error { kind, lines: Vec::new() };
        assert(e.deep_view().lines =~= Seq::empty());
        e
    }

    /// Wraps the error in the context of a line.
    pub fn chain_line(self, line: usize) -> (e: Error)
        ensures
            e.deep_view() == self.deep_view().on_line(line as int),
    {
        let mut lines = self.lines;
        let ghost before = lines@;
        lines.push(line);
        let e = Error { kind: self.kind, lines };
        assert(e.deep_view().lines =~= before.map_values(|l: usize| l as int).push(line as int));
        e
    }

    /// The outermost line of the context, if there is any context.
    pub fn line(&self) -> (l: Option<usize>)
        ensures
            self.lines@.len() == 0 ==> l.is_none(),
            self.lines@.len() > 0 ==> l == Some(self.lines@.last()),
    {
        let n: usize = self.lines.len();
        if n == 0 {
            None
        } else {
            Some(self.lines[n - 1])
        }
    }
}

/// The mathematical value of a result.
pub open spec fn outcome<T: DeepView, E: DeepView>(r: Result<T, E>) -> Result<T::V, E::V> {
    match r {
        Ok(v) => Ok(v.deep_view()),
        Err(e) => Err(e.deep_view()),
    }
}

} // verus!

use crate::errors::{outcome, Error, ErrorKind, ErrorKindView, ErrorView};
use crate::laws::lemma_open_is_sound;
use crate::lvm::{
    ChannelName, DataRow, DataRowView, File, FileView, Leaf, Measurement, MeasurementHeader,
    MeasurementHeaderView, MeasurementView, Real, Separator, XColumns,
};
use crate::schema::MeasurementHeaderFieldsView;
use crate::text::{chars_of, find_token_end, is_text, lemma_token_end, text_of, token_end};
use vstd::prelude::*;
use vstd::string::StringExecFns;

verus! {

/// Where the separators of a list stand. In every style a list ends where the
/// line ends.
#[derive(Clone, Copy, Debug, PartialEq, Eq)]
pub enum SequenceStyle {
    /// A separator stands before every element but the first. The separator
    /// is consumed before it is known that an element follows it, so one
    /// more may stand between the last element and the end of the line.
    Leading,
    /// A separator stands behind every element but the last of the line.
    TrailingExceptLast,
    /// A separator stands before every element, the first included.
    AlwaysLeading,
}

/// The first line of a file without its last character.
pub open spec fn magic() -> Seq<char> {
    "LabVIEW Measurement"@
}

/// The key that closes a block of fields.
pub open spec fn sentinel() -> Seq<char> {
    "***End_of_Header***"@
}

/// The message for a key that stands twice in a block of fields.
pub open spec fn duplicate_field_text(name: Seq<char>) -> Seq<char> {
    "duplicate field `"@ + name + "`"@
}

/// The message for a field that a block of fields must hold and lacks.
pub open spec fn missing_field_text(name: Seq<char>) -> Seq<char> {
    "missing field `"@ + name + "`"@
}

/// The message for a key that names no field of the block.
pub open spec fn unknown_field_text(name: Seq<char>) -> Seq<char> {
    "unknown field `"@ + name + "`"@
}

/// The state of decoding within one line: the line, how much of it is
/// consumed, its number in the file (from 1), and what governs the splitting.
pub struct LineCursor {
    pub line: Seq<char>,
    pub pos: int,
    pub number: int,
    pub separator: Separator,
    pub style: SequenceStyle,
}

impl LineCursor {
    /// The position lies within the line.
    pub open spec fn wf(self) -> bool {
        0 <= self.pos <= self.line.len()
    }

    /// Nothing of the line is left.
    pub open spec fn at_end(self) -> bool {
        self.pos == self.line.len()
    }

    /// What is left of the line.
    pub open spec fn remainder(self) -> Seq<char> {
        self.line.subrange(self.pos, self.line.len() as int)
    }

    /// The same line, consumed up to `pos`.
    pub open spec fn moved_to(self, pos: int) -> LineCursor {
        LineCursor { pos, ..self }
    }

    /// A failure on this line: the state stays, the error names the line.
    pub open spec fn fail<T>(self, kind: ErrorKindView) -> (LineCursor, Result<T, ErrorView>) {
        (self, Err(ErrorView::at(kind, self.number)))
    }

    /// The next token: the text up to the next separator or the end of the
    /// line. The position moves behind the token, not behind the separator.
    /// At the end of the line there is no token.
    pub open spec fn token(self) -> (LineCursor, Result<Seq<char>, ErrorView>) {
        if self.at_end() {
            self.fail(ErrorKindView::ParseEolUnexpected)
        } else {
            let end = token_end(self.line, self.pos, self.separator.spec_to_char());
            (self.moved_to(end), Ok(self.line.subrange(self.pos, end)))
        }
    }

    /// How many separators stand at the position, counted up to `n`.
    pub open spec fn separator_run(self, n: nat) -> nat
        decreases n,
    {
        if n > 0 && 0 <= self.pos < self.line.len() && self.line[self.pos]
            == self.separator.spec_to_char() {
            1 + self.moved_to(self.pos + 1).separator_run((n - 1) as nat)
        } else {
            0
        }
    }

    /// Consumes exactly `n` separators. Where the line ends before that, the
    /// position stays and the end of the line is reported. Where other text
    /// stands in the way, the position stays in front of it and the token
    /// found there is reported.
    pub open spec fn separators(self, n: nat) -> (LineCursor, Result<(), ErrorView>) {
        let k = self.separator_run(n);
        if k == n {
            (self.moved_to(self.pos + n), Ok(()))
        } else if self.pos + k == self.line.len() {
            self.fail(ErrorKindView::ParseEolUnexpected)
        } else {
            let at = self.moved_to(self.pos + k);
            let end = token_end(self.line, at.pos, self.separator.spec_to_char());
            at.fail(
                ErrorKindView::ParseSeparatorExpected(
                    self.line.subrange(at.pos, end),
                    self.separator,
                ),
            )
        }
    }

    /// A boolean: the token `No` or the token `Yes`.
    pub open spec fn boolean(self) -> (LineCursor, Result<bool, ErrorView>) {
        let (c, t) = self.token();
        match t {
            Err(e) => (c, Err(e)),
            Ok(text) => if text == "No"@ {
                (c, Ok(false))
            } else if text == "Yes"@ {
                (c, Ok(true))
            } else {
                c.fail(ErrorKindView::ParseTokenUnexpected(text, seq!["No"@, "Yes"@]))
            },
        }
    }

    /// A single character: a token of exactly one character. No literal is
    /// expected in its place, so the error names none.
    pub open spec fn character(self) -> (LineCursor, Result<char, ErrorView>) {
        let (c, t) = self.token();
        match t {
            Err(e) => (c, Err(e)),
            Ok(text) => if text.len() == 1 {
                (c, Ok(text[0]))
            } else {
                c.fail(ErrorKindView::ParseTokenUnexpected(text, Seq::empty()))
            },
        }
    }

    /// Whether a list in the given style has another element, `first`
    /// telling that none was decoded yet. The list ends where the line ends.
    /// Otherwise one separator is consumed in front of the element, except in
    /// front of the first element of a list whose style is not
    /// `AlwaysLeading`. In the style `Leading` the list also ends where the
    /// line ends behind that separator.
    pub open spec fn sequence_next(self, style: SequenceStyle, first: bool) -> (
        LineCursor,
        Result<bool, ErrorView>,
    ) {
        if self.at_end() {
            (self, Ok(false))
        } else if first && style != SequenceStyle::AlwaysLeading {
            (self, Ok(true))
        } else {
            let (c, r) = self.separators(1);
            match r {
                Err(e) => (c, Err(e)),
                Ok(_) => (c, Ok(style != SequenceStyle::Leading || !c.at_end())),
            }
        }
    }

    /// How much of the line is left.
    pub open spec fn left(self) -> nat {
        if self.pos <= self.line.len() {
            (self.line.len() - self.pos) as nat
        } else {
            0
        }
    }

    /// A single value: the next token, decoded as a `T`. What the parser of
    /// `T` rejects is a failure on this line.
    pub open spec fn leaf<T: Leaf>(self) -> (LineCursor, Result<T::V, ErrorView>) {
        let (c, t) = self.token();
        match t {
            Err(e) => (c, Err(e)),
            Ok(text) => match T::of_text(text) {
                Ok(v) => (c, Ok(v)),
                Err(k) => c.fail(k),
            },
        }
    }

    /// An optional value: absent where the line ends, else a single value.
    pub open spec fn optional<T: Leaf>(self) -> (LineCursor, Result<Option<T::V>, ErrorView>) {
        if self.at_end() {
            (self, Ok(None))
        } else {
            let (c, r) = self.leaf::<T>();
            match r {
                Err(e) => (c, Err(e)),
                Ok(v) => (c, Ok(Some(v))),
            }
        }
    }

    /// The rest of a list of values in the current style, behind the elements
    /// `acc`: as long as the protocol announces an element, one value is
    /// decoded.
    pub open spec fn leaves<T: Leaf>(self, first: bool, acc: Seq<T::V>) -> (
        LineCursor,
        Result<Seq<T::V>, ErrorView>,
    )
        decreases self.left(), (if first { 1int } else { 0int }),
    {
        let (c1, n) = self.sequence_next(self.style, first);
        match n {
            Err(e) => (c1, Err(e)),
            Ok(false) => (c1, Ok(acc)),
            Ok(true) => {
                let (c2, v) = c1.leaf::<T>();
                match v {
                    Err(e) => (c2, Err(e)),
                    Ok(x) => {
                        proof {
                            lemma_token_end(c1.line, c1.pos, c1.separator.spec_to_char());
                        }
                        c2.leaves::<T>(false, acc.push(x))
                    },
                }
            },
        }
    }

    /// An optional list of values: absent where the line ends, else a list
    /// in the current style.
    pub open spec fn optional_leaves<T: Leaf>(self) -> (
        LineCursor,
        Result<Option<Seq<T::V>>, ErrorView>,
    ) {
        if self.at_end() {
            (self, Ok(None))
        } else {
            let (c, r) = self.leaves::<T>(true, Seq::empty());
            match r {
                Err(e) => (c, Err(e)),
                Ok(v) => (c, Ok(Some(v))),
            }
        }
    }

    /// The channels of a segment, a tuple of two elements: their count, one
    /// separator, and the list of their names in the current style.
    pub open spec fn channels(self) -> (LineCursor, Result<(usize, Seq<Seq<char>>), ErrorView>) {
        let (c1, n) = self.leaf::<usize>();
        match n {
            Err(e) => (c1, Err(e)),
            Ok(count) => {
                let (c2, s) = c1.separators(1);
                match s {
                    Err(e) => (c2, Err(e)),
                    Ok(_) => {
                        let (c3, l) = c2.leaves::<ChannelName>(true, Seq::empty());
                        match l {
                            Err(e) => (c3, Err(e)),
                            Ok(names) => (c3, Ok((count, names))),
                        }
                    },
                }
            },
        }
    }

    /// The rest of the numbers of a data row in the current style, behind the
    /// numbers `acc`. The run of numbers ends where the line ends, and in
    /// front of an empty cell, whose token is consumed.
    pub open spec fn reals(self, first: bool, acc: Seq<Seq<char>>) -> (
        LineCursor,
        Result<Seq<Seq<char>>, ErrorView>,
    )
        decreases self.left(), (if first { 1int } else { 0int }),
    {
        let (c1, n) = self.sequence_next(self.style, first);
        match n {
            Err(e) => (c1, Err(e)),
            Ok(false) => (c1, Ok(acc)),
            Ok(true) => {
                let (c2, t) = c1.token();
                match t {
                    Err(e) => (c2, Err(e)),
                    Ok(text) => if text.len() == 0 {
                        (c2, Ok(acc))
                    } else {
                        match Real::of_text(text) {
                            Err(k) => c2.fail(k),
                            Ok(x) => {
                                proof {
                                    lemma_token_end(c1.line, c1.pos, c1.separator.spec_to_char());
                                }
                                c2.reals(false, acc.push(x))
                            },
                        }
                    },
                }
            },
        }
    }

    /// A data row, a tuple of two elements: the run of its numbers and,
    /// unless the line ends behind them, one separator and an optional
    /// comment.
    pub open spec fn data_row(self) -> (LineCursor, Result<DataRowView, ErrorView>) {
        let (c1, v) = self.reals(true, Seq::empty());
        match v {
            Err(e) => (c1, Err(e)),
            Ok(values) => if c1.at_end() {
                (c1, Ok(DataRowView { values, comment: None }))
            } else {
                let (c2, s) = c1.separators(1);
                match s {
                    Err(e) => (c2, Err(e)),
                    Ok(_) => {
                        let (c3, a) = c2.optional::<String>();
                        match a {
                            Err(e) => (c3, Err(e)),
                            Ok(comment) => (c3, Ok(DataRowView { values, comment })),
                        }
                    },
                }
            },
        }
    }

    /// Opens the value of a field: a field that was `seen` before is
    /// rejected, else the separator behind its key is consumed.
    pub open spec fn begin_field(self, seen: bool, name: Seq<char>) -> (
        LineCursor,
        Result<(), ErrorView>,
    ) {
        if seen {
            self.fail(ErrorKindView::Deserialize(duplicate_field_text(name)))
        } else {
            self.separators(1)
        }
    }

    /// The value of a field that holds a single value.
    pub open spec fn field_leaf<T: Leaf>(self, seen: bool, name: Seq<char>) -> (
        LineCursor,
        Result<T::V, ErrorView>,
    ) {
        let (c, b) = self.begin_field(seen, name);
        match b {
            Err(e) => (c, Err(e)),
            Ok(_) => c.leaf::<T>(),
        }
    }

    /// The value of a field that holds a boolean.
    pub open spec fn field_bool(self, seen: bool, name: Seq<char>) -> (
        LineCursor,
        Result<bool, ErrorView>,
    ) {
        let (c, b) = self.begin_field(seen, name);
        match b {
            Err(e) => (c, Err(e)),
            Ok(_) => c.boolean(),
        }
    }

    /// The value of a field that holds an optional value.
    pub open spec fn field_option<T: Leaf>(self, seen: bool, name: Seq<char>) -> (
        LineCursor,
        Result<Option<T::V>, ErrorView>,
    ) {
        let (c, b) = self.begin_field(seen, name);
        match b {
            Err(e) => (c, Err(e)),
            Ok(_) => c.optional::<T>(),
        }
    }

    /// The value of a field that holds a list.
    pub open spec fn field_leaves<T: Leaf>(self, seen: bool, name: Seq<char>) -> (
        LineCursor,
        Result<Seq<T::V>, ErrorView>,
    ) {
        let (c, b) = self.begin_field(seen, name);
        match b {
            Err(e) => (c, Err(e)),
            Ok(_) => c.leaves::<T>(true, Seq::empty()),
        }
    }

    /// The value of a field that holds an optional list.
    pub open spec fn field_option_leaves<T: Leaf>(self, seen: bool, name: Seq<char>) -> (
        LineCursor,
        Result<Option<Seq<T::V>>, ErrorView>,
    ) {
        let (c, b) = self.begin_field(seen, name);
        match b {
            Err(e) => (c, Err(e)),
            Ok(_) => c.optional_leaves::<T>(),
        }
    }

    /// The value of the field that holds the channels.
    pub open spec fn field_channels(self, seen: bool, name: Seq<char>) -> (
        LineCursor,
        Result<(usize, Seq<Seq<char>>), ErrorView>,
    ) {
        let (c, b) = self.begin_field(seen, name);
        match b {
            Err(e) => (c, Err(e)),
            Ok(_) => c.channels(),
        }
    }

    /// Whether a tuple of `length` elements has another one behind the
    /// `index` that were decoded. One separator is consumed in front of every
    /// element but the first; the end of the line plays no part.
    pub open spec fn tuple_next(self, index: nat, length: nat) -> (
        LineCursor,
        Result<bool, ErrorView>,
    ) {
        if index >= length {
            (self, Ok(false))
        } else if index == 0 {
            (self, Ok(true))
        } else {
            let (c, r) = self.separators(1);
            match r {
                Err(e) => (c, Err(e)),
                Ok(_) => (c, Ok(true)),
            }
        }
    }
}

/// The texts of the lines of a source. A line is either its text or the
/// message of the failure to read it.
pub open spec fn sources(input: Seq<Result<String, String>>) -> Seq<Result<Seq<char>, Seq<char>>> {
    input.map_values(
        |l: Result<String, String>|
            match l {
                Ok(t) => Ok(t@),
                Err(m) => Err(m@),
            },
    )
}

/// The state of decoding a file: the lines that are not read yet, and the
/// state within the current line.
pub struct Cursor {
    pub rest: Seq<Result<Seq<char>, Seq<char>>>,
    pub cur: LineCursor,
}

impl Cursor {
    /// The outcome of a step that works within the current line.
    pub open spec fn within<T>(self, out: (LineCursor, Result<T, ErrorView>)) -> (
        Cursor,
        Result<T, ErrorView>,
    ) {
        (Cursor { rest: self.rest, cur: out.0 }, out.1)
    }

    /// Moves to the next line, and tells whether there was one. The current
    /// line must be consumed to its end. The new line starts at position 0
    /// and has the next number.
    pub open spec fn next_line(self) -> (Cursor, Result<bool, ErrorView>) {
        if !self.cur.at_end() {
            self.within(self.cur.fail(ErrorKindView::ParseEolExpected(self.cur.remainder())))
        } else if self.rest.len() == 0 {
            (self, Ok(false))
        } else {
            match self.rest[0] {
                Ok(text) => (
                    Cursor {
                        rest: self.rest.drop_first(),
                        cur: LineCursor {
                            line: text,
                            pos: 0,
                            number: self.cur.number + 1,
                            ..self.cur
                        },
                    },
                    Ok(true),
                ),
                Err(m) => self.within(self.cur.fail(ErrorKindView::Io(m))),
            }
        }
    }

    /// Moves to the next line, which must exist.
    pub open spec fn newline(self) -> (Cursor, Result<(), ErrorView>) {
        let (c, r) = self.next_line();
        match r {
            Err(e) => (c, Err(e)),
            Ok(true) => (c, Ok(())),
            Ok(false) => c.within(c.cur.fail(ErrorKindView::ParseEofUnexpected)),
        }
    }

    /// The state behind the first line of a file. The line is the magic text
    /// and one more character, which declares the separator. The separator is
    /// judged before the magic text. The second line is then loaded. Every
    /// failure is put into the context of line 1: a first line that is
    /// missing, unreadable or empty, a last character that is no separator,
    /// another text than the magic one, and a second line that is missing or
    /// unreadable.
    pub open spec fn open(input: Seq<Result<Seq<char>, Seq<char>>>) -> Result<Cursor, ErrorView> {
        if input.len() == 0 {
            Err(ErrorView::at(ErrorKindView::ParseEofUnexpected, 1))
        } else {
            match input[0] {
                Err(m) => Err(ErrorView::at(ErrorKindView::Io(m), 1)),
                Ok(first) => if first.len() == 0 {
                    Err(ErrorView::at(ErrorKindView::ParseEolUnexpected, 1))
                } else {
                    match Separator::of_char(first.last()) {
                        None => Err(
                            ErrorView::at(ErrorKindView::InvalidSeparator(first.last()), 1),
                        ),
                        Some(separator) => if first.drop_last() != magic() {
                            Err(
                                ErrorView::at(
                                    ErrorKindView::ParseTokenUnexpected(
                                        first.drop_last(),
                                        seq![magic()],
                                    ),
                                    1,
                                ),
                            )
                        } else {
                            let start = Cursor {
                                rest: input.drop_first(),
                                cur: LineCursor {
                                    line: Seq::empty(),
                                    pos: 0,
                                    number: 1,
                                    separator,
                                    style: SequenceStyle::Leading,
                                },
                            };
                            let (c, r) = start.newline();
                            match r {
                                Ok(_) => Ok(c),
                                Err(e) => Err(e),
                            }
                        },
                    }
                },
            }
        }
    }
}

/// A decoder of LVM text: a cursor over the lines of a source.
#[derive(Debug)]
pub struct Deserializer {
    input: Vec<Result<String, String>>,
    line_current: Vec<char>,
    line_current_pos: usize,
    line_index: usize,
    separator: Separator,
    sequence_style: SequenceStyle,
}

impl View for Deserializer {
    type V = Cursor;

    closed spec fn view(&self) -> Cursor {
        Cursor {
            rest: sources(self.input@).skip(self.line_index as int),
            cur: LineCursor {
                line: self.line_current@,
                pos: self.line_current_pos as int,
                number: self.line_index as int,
                separator: self.separator,
                style: self.sequence_style,
            },
        }
    }
}

impl DeepView for Deserializer {
    type V = Cursor;

    open spec fn deep_view(&self) -> Cursor {
        self@
    }
}

impl Deserializer {
    #[verifier::type_invariant]
    spec fn inv(self) -> bool {
        &&& self.line_current_pos <= self.line_current.len()
        &&& 1 <= self.line_index <= self.input.len()
    }

    /// Starts decoding the lines of a source: checks the first line, takes
    /// the separator from it and loads the second line, at whose start the
    /// decoder then stands.
    pub fn from_reader(i_reader: Vec<Result<String, String>>) -> (r: Result<Deserializer, Error>)
        ensures
            outcome(r) == Cursor::open(sources(i_reader@)),
            r matches Ok(d) ==> d@.cur.wf() && d@.cur.pos == 0 && d@.cur.number == 2,
    {
        proof {
            lemma_open_is_sound(sources(i_reader@));
        }
        if i_reader.len() == 0 {
            return Err(Error::new(ErrorKind::ParseEofUnexpected).chain_line(1));
        }
        let mut s: Vec<char> = match &i_reader[0] {
            Ok(text) => chars_of(text.as_str()),
            Err(m) => {
                return Err(Error::new(ErrorKind::Io(m.clone())).chain_line(1));
            },
        };
        let ghost first = s@;
        assert(sources(i_reader@)[0] == Ok::<Seq<char>, Seq<char>>(first));
        // Pop separator
        let separator = match s.pop() {
            Some(c) => match Separator::try_from(c) {
                Ok(separator) => separator,
                Err(e) => {
                    return Err(e.chain_line(1));
                },
            },
            None => {
                return Err(Error::new(ErrorKind::ParseEolUnexpected).chain_line(1));
            },
        };
        assert(s@ == first.drop_last());
        // Check header
        let found = text_of(&s, 0, s.len());
        assert(found@ == s@);
        if !is_text(&found, "LabVIEW Measurement") {
            let mut options: Vec<String> = Vec::new();
            options.push("LabVIEW Measurement".to_owned());
            assert(options.deep_view() =~= seq![magic()]);
            return Err(
                Error::new(ErrorKind::ParseTokenUnexpected(found, options)).chain_line(1),
            );
        }
        // Create deserializer
        let mut d = Deserializer {
            input: i_reader,
            line_current: Vec::new(),
            line_current_pos: 0,
            line_index: 1,
            separator,
            sequence_style: SequenceStyle::Leading,
        };
        assert(d@.rest =~= sources(i_reader@).drop_first());
        assert(d@.cur.line =~= Seq::empty());
        // Load the next line
        d.parse_newline()?;
        Ok(d)
    }

    /// Puts the failure of a step into the context of the current line; a
    /// success stays as it is.
    pub fn line_result<T>(&self, r: Result<T, Error>) -> (out: Result<T, Error>)
        ensures
            match (r, out) {
                (Ok(a), Ok(b)) => a == b,
                (Err(e), Err(f)) => f.deep_view() == e.deep_view().on_line(self@.cur.number),
                _ => false,
            },
    {
        match r {
            Ok(v) => Ok(v),
            Err(e) => Err(e.chain_line(self.line_index)),
        }
    }

    /// A failure on the current line.
    pub fn line_error<T>(&self, e: ErrorKind) -> (out: Result<T, Error>)
        ensures
            out matches Err(f) && f.deep_view() == ErrorView::at(e.deep_view(), self@.cur.number),
    {
        let err = Error::new(e).chain_line(self.line_index);
        assert(err.deep_view().lines =~= seq![self.line_index as int]);
        Err(err)
    }

    /// Whether the current line is consumed to its end. The state of a
    /// decoder is always sound: the position lies within the current line,
    /// and the lines are counted from 1.
    pub fn line_is_empty(&self) -> (b: bool)
        ensures
            b == self@.cur.at_end(),
            self@.cur.wf(),
            self@.cur.number >= 1,
    {
        proof {
            use_type_invariant(self);
        }
        self.line_current.len() == self.line_current_pos
    }

    /// Whether the current line is consumed to its end. The state stays as
    /// it is, and it is sound.
    pub fn peek_newline(&mut self) -> (b: bool)
        ensures
            b == old(self)@.cur.at_end(),
            final(self)@ == old(self)@,
            old(self)@.cur.wf(),
            old(self)@.cur.number >= 1,
    {
        self.line_is_empty()
    }

    /// A boolean: the token `Yes` or `No`.
    pub fn parse_bool(&mut self) -> (r: Result<bool, Error>)
        ensures
            (final(self)@, outcome(r)) == old(self)@.within(old(self)@.cur.boolean()),
    {
        let token = self.parse_token()?;
        if is_text(&token, "No") {
            Ok(false)
        } else if is_text(&token, "Yes") {
            Ok(true)
        } else {
            let mut options: Vec<String> = Vec::new();
            options.push("No".to_owned());
            options.push("Yes".to_owned());
            assert(options.deep_view() =~= seq!["No"@, "Yes"@]);
            self.line_error(ErrorKind::ParseTokenUnexpected(token, options))
        }
    }

    /// A single character: a token of exactly one character.
    pub fn parse_char(&mut self) -> (r: Result<char, Error>)
        ensures
            (final(self)@, outcome(r)) == old(self)@.within(old(self)@.cur.character()),
    {
        let token = self.parse_token()?;
        let chars = chars_of(token.as_str());
        if chars.len() == 1 {
            Ok(chars[0])
        } else {
            let options: Vec<String> = Vec::new();
            assert(options.deep_view() =~= Seq::empty());
            self.line_error(ErrorKind::ParseTokenUnexpected(token, options))
        }
    }

    /// Moves to the next line of the source and tells whether there was one.
    /// Fails where the current line is not consumed, or the source fails.
    pub fn parse_newline_or_eof(&mut self) -> (r: Result<bool, Error>)
        ensures
            (final(self)@, outcome(r)) == old(self)@.next_line(),
    {
        proof {
            use_type_invariant(&*self);
        }
        if self.line_is_empty() {
            if self.line_index < self.input.len() {
                assert(self@.rest[0] == sources(self.input@)[self.line_index as int]);
                match &self.input[self.line_index] {
                    Ok(x) => {
                        let line = chars_of(x.as_str());
                        self.line_current_pos = 0;
                        self.line_current = line;
                        self.line_index += 1;
                        assert(self@.rest =~= old(self)@.rest.drop_first());
                        Ok(true)
                    },
                    Err(e) => {
                        let kind = ErrorKind::Io(e.clone());
                        self.line_error(kind)
                    },
                }
            } else {
                assert(self@.rest.len() == 0);
                Ok(false)
            }
        } else {
            let rest = text_of(
                &self.line_current,
                self.line_current_pos,
                self.line_current.len(),
            );
            self.line_error(ErrorKind::ParseEolExpected(rest))
        }
    }

    /// Moves to the next line of the source, which must exist.
    pub fn parse_newline(&mut self) -> (r: Result<(), Error>)
        ensures
            (final(self)@, outcome(r)) == old(self)@.newline(),
    {
        if self.parse_newline_or_eof()? {
            Ok(())
        } else {
            self.line_error(ErrorKind::ParseEofUnexpected)
        }
    }

    /// Consumes exactly `i_count` separators of the current line. To consume
    /// none changes nothing and cannot fail.
    pub fn parse_separators(&mut self, i_count: usize) -> (r: Result<(), Error>)
        ensures
            (final(self)@, outcome(r)) == old(self)@.within(
                old(self)@.cur.separators(i_count as nat),
            ),
            i_count == 0 ==> r is Ok && final(self)@ == old(self)@,
    {
        proof {
            use_type_invariant(&*self);
        }
        let start: usize = self.line_current_pos;
        let sep = self.separator.to_char();
        let mut done: usize = 0;
        while done < i_count
            invariant
                self.inv(),
                self.line_current_pos == start,
                done <= i_count,
                start + done <= self.line_current.len(),
                sep == self.separator.spec_to_char(),
                *self == *old(self),
                old(self)@.cur.separator_run(i_count as nat) == done + old(self)@.cur.moved_to(
                    start + done,
                ).separator_run((i_count - done) as nat),
            decreases i_count - done,
        {
            if start + done == self.line_current.len() {
                return self.line_error(ErrorKind::ParseEolUnexpected);
            }
            if self.line_current[start + done] != sep {
                let from: usize = start + done;
                let end = find_token_end(&self.line_current, from, sep);
                let found = text_of(&self.line_current, from, end);
                self.line_current_pos = from;
                return self.line_error(
                    ErrorKind::ParseSeparatorExpected(found, self.separator),
                );
            }
            done += 1;
        }
        self.line_current_pos = start + i_count;
        Ok(())
    }

    /// The protocol of a list in the current style, which decodes through
    /// this decoder.
    pub fn parse_sequence(&mut self) -> (s: Sequence<'_>)
        ensures
            s.first,
            s.style == old(self)@.cur.style,
            *s.de == *old(self),
            *final(self) == *final(s.de),
    {
        Sequence::new(self.sequence_style, self)
    }

    /// The next token of the current line.
    pub fn parse_token(&mut self) -> (r: Result<String, Error>)
        ensures
            (final(self)@, outcome(r)) == old(self)@.within(old(self)@.cur.token()),
    {
        proof {
            use_type_invariant(&*self);
        }
        if self.line_is_empty() {
            return self.line_error(ErrorKind::ParseEolUnexpected);
        }
        let start: usize = self.line_current_pos;
        let end = find_token_end(&self.line_current, start, self.separator.to_char());
        let token = text_of(&self.line_current, start, end);
        self.line_current_pos = end;
        Ok(token)
    }

    /// A single value of type `T`.
    pub fn parse_leaf<T: Leaf>(&mut self) -> (r: Result<T, Error>)
        ensures
            (final(self)@, outcome(r)) == old(self)@.within(old(self)@.cur.leaf::<T>()),
    {
        let token = self.parse_token()?;
        match T::from_token(token) {
            Ok(v) => Ok(v),
            Err(k) => self.line_result(Err(Error::new(k))),
        }
    }

    /// An optional value of type `T`: absent where the line ends.
    pub fn parse_option<T: Leaf>(&mut self) -> (r: Result<Option<T>, Error>)
        ensures
            (final(self)@, outcome(r)) == old(self)@.within(old(self)@.cur.optional::<T>()),
    {
        if self.peek_newline() {
            Ok(None)
        } else {
            let v = self.parse_leaf::<T>()?;
            Ok(Some(v))
        }
    }

    /// A list of values of type `T` in the current style.
    #[verifier::loop_isolation(false)]
    pub fn parse_leaves<T: Leaf>(&mut self) -> (r: Result<Vec<T>, Error>)
        ensures
            (final(self)@, outcome(r)) == old(self)@.within(
                old(self)@.cur.leaves::<T>(true, Seq::empty()),
            ),
    {
        let mut values: Vec<T> = Vec::new();
        let ghost start = self@;
        let ghost target: Deserializer = *final(self);
        let mut seq = self.parse_sequence();
        assert(values.deep_view() =~= Seq::empty());
        loop
            invariant
                seq.style == seq.de@.cur.style,
                seq.de@.rest == start.rest,
                *final(seq.de) == target,
                seq.de@.cur.leaves::<T>(seq.first, values.deep_view()) == start.cur.leaves::<T>(
                    true,
                    Seq::empty(),
                ),
            decreases seq.de@.cur.left(), (if seq.first { 1int } else { 0int }),
        {
            let ghost before = seq.de@.cur;
            let ghost first = seq.first;
            let ghost acc = values.deep_view();
            if !seq.next_element()? {
                return Ok(values);
            }
            let v = seq.de.parse_leaf::<T>()?;
            values.push(v);
            proof {
                let c1 = before.sequence_next(before.style, first).0;
                lemma_token_end(c1.line, c1.pos, c1.separator.spec_to_char());
                assert(values.deep_view() =~= acc.push(v.deep_view()));
            }
        }
    }

    /// An optional list of values of type `T`: absent where the line ends.
    pub fn parse_option_leaves<T: Leaf>(&mut self) -> (r: Result<Option<Vec<T>>, Error>)
        ensures
            (final(self)@, outcome(r)) == old(self)@.within(
                old(self)@.cur.optional_leaves::<T>(),
            ),
    {
        if self.peek_newline() {
            Ok(None)
        } else {
            let v = self.parse_leaves::<T>()?;
            Ok(Some(v))
        }
    }

    /// The channels of a segment: their count and their names.
    pub fn parse_channels(&mut self) -> (r: Result<(usize, Vec<ChannelName>), Error>)
        ensures
            (final(self)@, outcome(r)) == old(self)@.within(old(self)@.cur.channels()),
    {
        let mut tuple = self.parse_tuple(2);
        let more = tuple.next_element()?;
        assert(more);
        let count = tuple.de.parse_leaf::<usize>()?;
        let more = tuple.next_element()?;
        assert(more);
        let names = tuple.de.parse_leaves::<ChannelName>()?;
        Ok((count, names))
    }

    /// The numbers of a data row in the current style, up to the end of the
    /// line or to an empty cell.
    #[verifier::loop_isolation(false)]
    pub fn parse_reals(&mut self) -> (r: Result<Vec<Real>, Error>)
        ensures
            (final(self)@, outcome(r)) == old(self)@.within(
                old(self)@.cur.reals(true, Seq::empty()),
            ),
    {
        let mut values: Vec<Real> = Vec::new();
        let ghost start = self@;
        let ghost target: Deserializer = *final(self);
        let mut seq = self.parse_sequence();
        assert(values.deep_view() =~= Seq::empty());
        loop
            invariant
                seq.style == seq.de@.cur.style,
                seq.de@.rest == start.rest,
                *final(seq.de) == target,
                seq.de@.cur.reals(seq.first, values.deep_view()) == start.cur.reals(
                    true,
                    Seq::empty(),
                ),
            decreases seq.de@.cur.left(), (if seq.first { 1int } else { 0int }),
        {
            let ghost before = seq.de@.cur;
            let ghost first = seq.first;
            let ghost acc = values.deep_view();
            if !seq.next_element()? {
                return Ok(values);
            }
            let token = seq.de.parse_token()?;
            if token.as_str().is_empty() {
                return Ok(values);
            }
            let v = match Real::from_token(token) {
                Ok(v) => v,
                Err(k) => {
                    return seq.de.line_error(k);
                },
            };
            values.push(v);
            proof {
                let c1 = before.sequence_next(before.style, first).0;
                lemma_token_end(c1.line, c1.pos, c1.separator.spec_to_char());
                assert(values.deep_view() =~= acc.push(v.deep_view()));
            }
        }
    }

    /// A data row: its numbers and its optional comment.
    pub fn parse_data_row(&mut self) -> (r: Result<DataRow, Error>)
        ensures
            (final(self)@, outcome(r)) == old(self)@.within(old(self)@.cur.data_row()),
    {
        let mut tuple = self.parse_tuple(2);
        let more = tuple.next_element()?;
        assert(more);
        let values = tuple.de.parse_reals()?;
        if tuple.de.peek_newline() {
            return Ok(DataRow { values, comment: None });
        }
        let more = tuple.next_element()?;
        assert(more);
        let comment = tuple.de.parse_option::<String>()?;
        Ok(DataRow { values, comment })
    }

    /// Opens the value of the field `name`, which must not have been `seen`
    /// before, and consumes the separator behind its key.
    pub fn begin_field(&mut self, seen: bool, name: &str) -> (r: Result<(), Error>)
        ensures
            (final(self)@, outcome(r)) == old(self)@.within(
                old(self)@.cur.begin_field(seen, name@),
            ),
    {
        if seen {
            let m = "duplicate field `".to_owned().concat(name).concat("`");
            self.line_error(ErrorKind::Deserialize(m))
        } else {
            self.parse_separators(1)
        }
    }

    /// The value of a field that holds a single value.
    pub fn parse_field_leaf<T: Leaf>(&mut self, seen: bool, name: &str) -> (r: Result<T, Error>)
        ensures
            (final(self)@, outcome(r)) == old(self)@.within(
                old(self)@.cur.field_leaf::<T>(seen, name@),
            ),
    {
        self.begin_field(seen, name)?;
        self.parse_leaf::<T>()
    }

    /// The value of a field that holds a boolean.
    pub fn parse_field_bool(&mut self, seen: bool, name: &str) -> (r: Result<bool, Error>)
        ensures
            (final(self)@, outcome(r)) == old(self)@.within(
                old(self)@.cur.field_bool(seen, name@),
            ),
    {
        self.begin_field(seen, name)?;
        self.parse_bool()
    }

    /// The value of a field that holds an optional value.
    pub fn parse_field_option<T: Leaf>(&mut self, seen: bool, name: &str) -> (r: Result<
        Option<T>,
        Error,
    >)
        ensures
            (final(self)@, outcome(r)) == old(self)@.within(
                old(self)@.cur.field_option::<T>(seen, name@),
            ),
    {
        self.begin_field(seen, name)?;
        self.parse_option::<T>()
    }

    /// The value of a field that holds a list.
    pub fn parse_field_leaves<T: Leaf>(&mut self, seen: bool, name: &str) -> (r: Result<
        Vec<T>,
        Error,
    >)
        ensures
            (final(self)@, outcome(r)) == old(self)@.within(
                old(self)@.cur.field_leaves::<T>(seen, name@),
            ),
    {
        self.begin_field(seen, name)?;
        self.parse_leaves::<T>()
    }

    /// The value of a field that holds an optional list.
    pub fn parse_field_option_leaves<T: Leaf>(&mut self, seen: bool, name: &str) -> (r: Result<
        Option<Vec<T>>,
        Error,
    >)
        ensures
            (final(self)@, outcome(r)) == old(self)@.within(
                old(self)@.cur.field_option_leaves::<T>(seen, name@),
            ),
    {
        self.begin_field(seen, name)?;
        self.parse_option_leaves::<T>()
    }

    /// The value of the field that holds the channels.
    pub fn parse_field_channels(&mut self, seen: bool, name: &str) -> (r: Result<
        (usize, Vec<ChannelName>),
        Error,
    >)
        ensures
            (final(self)@, outcome(r)) == old(self)@.within(
                old(self)@.cur.field_channels(seen, name@),
            ),
    {
        self.begin_field(seen, name)?;
        self.parse_channels()
    }

    /// The protocol of a tuple of `i_length` elements, which decodes through
    /// this decoder.
    pub fn parse_tuple(&mut self, i_length: usize) -> (t: Tuple<'_>)
        ensures
            t.index == 0,
            t.length == i_length,
            *t.de == *old(self),
            *final(self) == *final(t.de),
    {
        Tuple::new(i_length, self)
    }

    /// Sets the style in which lists are decoded from now on.
    pub fn set_sequence_style(&mut self, i_style: SequenceStyle)
        ensures
            final(self)@ == (Cursor {
                cur: LineCursor { style: i_style, ..old(self)@.cur },
                ..old(self)@
            }),
    {
        proof {
            use_type_invariant(&*self);
        }
        self.sequence_style = i_style;
    }
}

/// The protocol of a tuple: the decoder through which it decodes, how many
/// elements it has and how many of them were announced.
#[derive(Debug)]
pub struct Tuple<'a> {
    pub de: &'a mut Deserializer,
    pub length: usize,
    pub index: usize,
}

impl<'a> Tuple<'a> {
    /// A tuple of `i_count` elements, none of them decoded.
    pub fn new(i_count: usize, i_de: &'a mut Deserializer) -> (t: Tuple<'a>)
        ensures
            t.index == 0,
            t.length == i_count,
            *t.de == *old(i_de),
            *final(i_de) == *final(t.de),
    {
        Tuple { de: i_de, index: 0, length: i_count }
    }

    /// Announces the next element, if the tuple has another one, and consumes
    /// what separates it from the one before.
    pub fn next_element(&mut self) -> (r: Result<bool, Error>)
        ensures
            (final(self).de@, outcome(r)) == old(self).de@.within(
                old(self).de@.cur.tuple_next(old(self).index as nat, old(self).length as nat),
            ),
            final(self).length == old(self).length,
            final(self).index == if r == Ok::<bool, Error>(true) {
                old(self).index + 1
            } else {
                old(self).index as int
            },
            *final(final(self).de) == *final(old(self).de),
    {
        if self.index >= self.length {
            Ok(false)
        } else {
            if self.index > 0 {
                self.de.parse_separators(1)?;
            }
            self.index += 1;
            Ok(true)
        }
    }
}

/// The protocol of a list: the decoder through which it decodes, its style,
/// and whether no element was announced yet.
#[derive(Debug)]
pub struct Sequence<'a> {
    pub de: &'a mut Deserializer,
    pub first: bool,
    pub style: SequenceStyle,
}

impl<'a> Sequence<'a> {
    /// A list in the given style, none of its elements decoded.
    pub fn new(i_style: SequenceStyle, i_de: &'a mut Deserializer) -> (s: Sequence<'a>)
        ensures
            s.first,
            s.style == i_style,
            *s.de == *old(i_de),
            *final(i_de) == *final(s.de),
    {
        Sequence { de: i_de, first: true, style: i_style }
    }

    /// Announces the next element, if the list has another one, and consumes
    /// what separates it from the one before.
    pub fn next_element(&mut self) -> (r: Result<bool, Error>)
        ensures
            (final(self).de@, outcome(r)) == old(self).de@.within(
                old(self).de@.cur.sequence_next(old(self).style, old(self).first),
            ),
            final(self).style == old(self).style,
            final(self).first == (old(self).first && r != Ok::<bool, Error>(true)),
            *final(final(self).de) == *final(old(self).de),
    {
        if self.de.peek_newline() {
            return Ok(false);
        }
        match self.style {
            SequenceStyle::Leading => {
                if !self.first {
                    self.de.parse_separators(1)?;
                    if self.de.peek_newline() {
                        return Ok(false);
                    }
                }
            },
            SequenceStyle::TrailingExceptLast => {
                if !self.first {
                    self.de.parse_separators(1)?;
                }
            },
            SequenceStyle::AlwaysLeading => {
                self.de.parse_separators(1)?;
            },
        }
        self.first = false;
        Ok(true)
    }
}

impl Cursor {
    /// The same state with another style for lists.
    pub open spec fn with_style(self, style: SequenceStyle) -> Cursor {
        Cursor { rest: self.rest, cur: LineCursor { style, ..self.cur } }
    }

    /// The head of a segment: its header with lists in the style `Leading`,
    /// then one separator for each channel that the header counts, then the
    /// move to the next line.
    pub open spec fn segment_header(self) -> (Cursor, Result<MeasurementHeaderView, ErrorView>) {
        let (c1, h) = self.with_style(SequenceStyle::Leading).measurement_header();
        match h {
            Err(e) => (c1, Err(e)),
            Ok(header) => {
                let (c2, s) = c1.within(c1.cur.separators(header.channels.0 as nat));
                match s {
                    Err(e) => (c2, Err(e)),
                    Ok(_) => {
                        let (c3, n) = c2.newline();
                        match n {
                            Err(e) => (c3, Err(e)),
                            Ok(_) => (c3, Ok(header)),
                        }
                    },
                }
            },
        }
    }

    /// The headings of the columns of a segment: a list of texts in the style
    /// `TrailingExceptLast`, then the move to the next line.
    pub open spec fn segment_headings(self) -> (Cursor, Result<Seq<Seq<char>>, ErrorView>) {
        let c0 = self.with_style(SequenceStyle::TrailingExceptLast);
        let (c1, h) = c0.within(c0.cur.leaves::<String>(true, Seq::empty()));
        match h {
            Err(e) => (c1, Err(e)),
            Ok(headings) => {
                let (c2, n) = c1.newline();
                match n {
                    Err(e) => (c2, Err(e)),
                    Ok(_) => (c2, Ok(headings)),
                }
            },
        }
    }

    /// The rest of the data rows of a segment, behind the rows `acc`, one on
    /// each line. The rows end in front of an empty line and where the input
    /// ends behind a row.
    pub open spec fn data_rows(self, acc: Seq<DataRowView>) -> (
        Cursor,
        Result<Seq<DataRowView>, ErrorView>,
    )
        decreases self.rest.len(),
    {
        if self.cur.at_end() {
            (self, Ok(acc))
        } else {
            let (c1, r) = self.within(self.cur.data_row());
            match r {
                Err(e) => (c1, Err(e)),
                Ok(row) => {
                    let (c2, n) = c1.next_line();
                    match n {
                        Err(e) => (c2, Err(e)),
                        Ok(false) => (c2, Ok(acc.push(row))),
                        Ok(true) => c2.data_rows(acc.push(row)),
                    }
                },
            }
        }
    }

    /// The style of the numbers of a data row: `AlwaysLeading` in a file
    /// without x values, whose first column is blank, `TrailingExceptLast` in
    /// a file with one column of x values. Rows with one x column for each y
    /// column are not decoded.
    pub open spec fn row_style(x_columns: XColumns) -> Option<SequenceStyle> {
        match x_columns {
            XColumns::No => Some(SequenceStyle::AlwaysLeading),
            XColumns::One => Some(SequenceStyle::TrailingExceptLast),
            XColumns::Multi => None,
        }
    }

    /// The data rows of a segment in the style that the file's layout of
    /// columns asks for. A layout whose rows are not decoded is reported on
    /// the current line.
    pub open spec fn segment_rows(self, x_columns: XColumns) -> (
        Cursor,
        Result<Seq<DataRowView>, ErrorView>,
    ) {
        match Cursor::row_style(x_columns) {
            Some(style) => self.with_style(style).data_rows(Seq::empty()),
            None => self.within(self.cur.fail(ErrorKindView::UnsupportedColumns)),
        }
    }

    /// One segment: its head, its headings and its data rows.
    pub open spec fn measurement(self, x_columns: XColumns) -> (
        Cursor,
        Result<MeasurementView, ErrorView>,
    ) {
        let (c1, h) = self.segment_header();
        match h {
            Err(e) => (c1, Err(e)),
            Ok(header) => {
                let (c2, d) = c1.segment_headings();
                match d {
                    Err(e) => (c2, Err(e)),
                    Ok(data_headings) => {
                        let (c3, r) = c2.segment_rows(x_columns);
                        match r {
                            Err(e) => (c3, Err(e)),
                            Ok(data) => (c3, Ok(MeasurementView { header, data_headings, data })),
                        }
                    },
                }
            },
        }
    }

    /// The rest of the segments of a file, behind the segments `acc`. Each
    /// starts on a new line; the file ends where no line follows.
    pub open spec fn measurements(self, x_columns: XColumns, acc: Seq<MeasurementView>) -> (
        Cursor,
        Result<Seq<MeasurementView>, ErrorView>,
    )
        decreases self.rest.len(),
    {
        let (c1, n) = self.next_line();
        match n {
            Err(e) => (c1, Err(e)),
            Ok(false) => (c1, Ok(acc)),
            Ok(true) => {
                let (c2, m) = c1.measurement(x_columns);
                match m {
                    Err(e) => (c2, Err(e)),
                    Ok(segment) => {
                        proof {
                            lemma_measurement_reads_forward(c1, x_columns);
                        }
                        c2.measurements(x_columns, acc.push(segment))
                    },
                }
            },
        }
    }
}

impl Cursor {
    /// A file behind its first line: the header of the file, with lists in
    /// the style `Leading`; the line behind the header, which holds one
    /// separator; then the segments up to the end of the input.
    pub open spec fn file(self) -> (Cursor, Result<FileView, ErrorView>) {
        let (c1, h) = self.file_header();
        match h {
            Err(e) => (c1, Err(e)),
            Ok(header) => {
                let (c2, n) = c1.newline();
                match n {
                    Err(e) => (c2, Err(e)),
                    Ok(_) => {
                        let (c3, s) = c2.within(c2.cur.separators(1));
                        match s {
                            Err(e) => (c3, Err(e)),
                            Ok(_) => {
                                let (c4, m) = c3.measurements(header.x_columns, Seq::empty());
                                match m {
                                    Err(e) => (c4, Err(e)),
                                    Ok(measurements) => (
                                        c4,
                                        Ok(FileView { header, measurements }),
                                    ),
                                }
                            },
                        }
                    },
                }
            },
        }
    }
}

/// What a file decodes to: what stands behind its first line, once that line
/// is accepted.
pub open spec fn decode(input: Seq<Result<Seq<char>, Seq<char>>>) -> Result<FileView, ErrorView> {
    match Cursor::open(input) {
        Err(e) => Err(e),
        Ok(c) => c.file().1,
    }
}

/// The number of the line on which decoding stops: the line of the failure,
/// or the last line of a file that is decoded. Where the first line is not
/// accepted, decoding stops on line 1.
pub open spec fn stopped_on_line(input: Seq<Result<Seq<char>, Seq<char>>>) -> int {
    match Cursor::open(input) {
        Err(_) => 1,
        Ok(c) => c.file().0.cur.number,
    }
}

/// The fields of the header of a segment never give lines back to the input.
pub proof fn lemma_header_reads_forward(c: Cursor, fields: MeasurementHeaderFieldsView)
    ensures
        c.measurement_header_fields(fields).0.rest.len() <= c.rest.len(),
    decreases c.rest.len(),
{
    let (c1, e) = c.within(c.cur.measurement_header_entry(fields));
    if let Ok((false, f)) = e {
        let (c2, n) = c1.newline();
        if n is Ok {
            lemma_header_reads_forward(c2, f);
        }
    }
}

/// The data rows of a segment never give lines back to the input.
pub proof fn lemma_rows_read_forward(c: Cursor, acc: Seq<DataRowView>)
    ensures
        c.data_rows(acc).0.rest.len() <= c.rest.len(),
    decreases c.rest.len(),
{
    if !c.cur.at_end() {
        let (c1, r) = c.within(c.cur.data_row());
        if let Ok(row) = r {
            let (c2, n) = c1.next_line();
            if n == Ok::<bool, ErrorView>(true) {
                lemma_rows_read_forward(c2, acc.push(row));
            }
        }
    }
}

/// A segment never gives lines back to the input.
pub proof fn lemma_measurement_reads_forward(c: Cursor, x_columns: XColumns)
    ensures
        c.measurement(x_columns).0.rest.len() <= c.rest.len(),
{
    let c0 = c.with_style(SequenceStyle::Leading);
    lemma_header_reads_forward(c0, MeasurementHeaderFieldsView::empty());
    let (c1, h) = c.segment_header();
    if h is Ok {
        let (c2, d) = c1.segment_headings();
        if d is Ok {
            match Cursor::row_style(x_columns) {
                Some(style) => {
                    lemma_rows_read_forward(c2.with_style(style), Seq::empty());
                },
                None => {},
            }
        }
    }
}

impl Deserializer {
    /// The head of a segment: its header, the separators of its channels, and
    /// the move to the next line.
    pub fn parse_segment_header(&mut self) -> (r: Result<MeasurementHeader, Error>)
        ensures
            (final(self)@, outcome(r)) == old(self)@.segment_header(),
    {
        self.set_sequence_style(SequenceStyle::Leading);
        let header = self.parse_measurement_header()?;
        self.parse_separators(header.channels.0)?;
        self.parse_newline()?;
        Ok(header)
    }

    /// The headings of the columns of a segment, and the move to the next
    /// line.
    pub fn parse_segment_headings(&mut self) -> (r: Result<Vec<String>, Error>)
        ensures
            (final(self)@, outcome(r)) == old(self)@.segment_headings(),
    {
        self.set_sequence_style(SequenceStyle::TrailingExceptLast);
        let headings = self.parse_leaves::<String>()?;
        self.parse_newline()?;
        Ok(headings)
    }

    /// The data rows of a segment in the current style.
    pub fn parse_data_rows(&mut self) -> (r: Result<Vec<DataRow>, Error>)
        ensures
            (final(self)@, outcome(r)) == old(self)@.data_rows(Seq::empty()),
    {
        let mut data_rows: Vec<DataRow> = Vec::new();
        assert(data_rows.deep_view() =~= Seq::empty());
        loop
            invariant
                self@.data_rows(data_rows.deep_view()) == old(self)@.data_rows(Seq::empty()),
            decreases self@.rest.len(),
        {
            let ghost acc = data_rows.deep_view();
            if self.peek_newline() {
                return Ok(data_rows);
            }
            let data_row = self.parse_data_row()?;
            data_rows.push(data_row);
            assert(data_rows.deep_view() =~= acc.push(data_row.deep_view()));
            if !self.parse_newline_or_eof()? {
                return Ok(data_rows);
            }
        }
    }

    /// The data rows of a segment in the style that the file's layout of
    /// columns asks for.
    pub fn parse_segment_rows(&mut self, x_columns: XColumns) -> (r: Result<Vec<DataRow>, Error>)
        ensures
            (final(self)@, outcome(r)) == old(self)@.segment_rows(x_columns),
    {
        match x_columns {
            XColumns::No => {
                self.set_sequence_style(SequenceStyle::AlwaysLeading);
            },
            XColumns::One => {
                self.set_sequence_style(SequenceStyle::TrailingExceptLast);
            },
            XColumns::Multi => {
                return self.line_error(ErrorKind::UnsupportedColumns);
            },
        }
        self.parse_data_rows()
    }

    /// The segments of a file, up to the end of the input.
    pub fn parse_measurements(&mut self, x_columns: XColumns) -> (r: Result<
        Vec<Measurement>,
        Error,
    >)
        ensures
            (final(self)@, outcome(r)) == old(self)@.measurements(x_columns, Seq::empty()),
    {
        let mut measurements: Vec<Measurement> = Vec::new();
        assert(measurements.deep_view() =~= Seq::empty());
        loop
            invariant
                self@.measurements(x_columns, measurements.deep_view()) == old(
                    self,
                )@.measurements(x_columns, Seq::empty()),
            decreases self@.rest.len(),
        {
            let ghost acc = measurements.deep_view();
            if !self.parse_newline_or_eof()? {
                return Ok(measurements);
            }
            proof {
                lemma_measurement_reads_forward(self@, x_columns);
            }
            let measurement = self.parse_measurement(x_columns)?;
            measurements.push(measurement);
            assert(measurements.deep_view() =~= acc.push(measurement.deep_view()));
        }
    }

    /// A file behind its first line: its header, the line behind the
    /// header, and its segments.
    pub fn parse_file(&mut self) -> (r: Result<File, Error>)
        ensures
            (final(self)@, outcome(r)) == old(self)@.file(),
    {
        let file_header = self.parse_file_header()?;
        self.parse_newline()?;
        self.parse_separators(1)?;
        let measurements = self.parse_measurements(file_header.x_columns)?;
        Ok(File { header: file_header, measurements })
    }

    /// One segment: its head, its headings and its data rows.
    pub fn parse_measurement(&mut self, x_columns: XColumns) -> (r: Result<Measurement, Error>)
        ensures
            (final(self)@, outcome(r)) == old(self)@.measurement(x_columns),
    {
        let header = self.parse_segment_header()?;
        let data_headings = self.parse_segment_headings()?;
        let data = self.parse_segment_rows(x_columns)?;
        Ok(Measurement { header, data_headings, data })
    }
}

/// Deserializes LVM file data from the lines of a source. Each line is its
/// text without the line break, or the message of the failure to read it.
pub fn from_reader(i_reader: Vec<Result<String, String>>) -> (r: Result<File, Error>)
    ensures
        outcome(r) == decode(sources(i_reader@)),
{
    let mut deserializer = Deserializer::from_reader(i_reader)?;
    deserializer.parse_file()
}

} // verus!

use crate::errors::ErrorView;
use crate::lvm::{
    join, split, split_from, ChannelName, DataRowView, FileView, Leaf, MeasurementView, Real,
    Separator, XColumns, TEST_NUMBERS_SEPARATOR,
};
use crate::lvm_format::{
    decode, lemma_measurement_reads_forward, sources, stopped_on_line, Cursor,
    LineCursor, SequenceStyle,
};
use crate::schema::{
    lemma_file_header_entry_stays, lemma_measurement_header_entry_stays, FileHeaderFieldsView,
    MeasurementHeaderFieldsView,
};
use crate::text::{count_from, lemma_token_end, token_end};
use vstd::prelude::*;

verus! {

/// Decoding is a function of the texts of the lines: two sources that hold
/// the same texts decode to the same file, or fail with the same error.
pub proof fn lemma_decoding_is_repeatable(
    a: Vec<Result<String, String>>,
    b: Vec<Result<String, String>>,
)
    requires
        a@.len() == b@.len(),
        forall|i: int| 0 <= i < a@.len() ==> sources(a@)[i] == sources(b@)[i],
    ensures
        decode(sources(a@)) == decode(sources(b@)),
{
    assert(sources(a@) =~= sources(b@));
}

/// No token holds a separator: as many separators stand behind a token as
/// stand from its start on.
pub proof fn lemma_token_holds_no_separator(line: Seq<char>, pos: int, sep: char)
    ensures
        count_from(line, token_end(line, pos, sep), sep) == count_from(line, pos, sep),
    decreases line.len() - pos,
{
    if 0 <= pos < line.len() && line[pos] != sep {
        lemma_token_holds_no_separator(line, pos + 1, sep);
    }
}

/// Consuming no separator changes nothing and cannot fail: a segment without
/// channels needs no separator behind its header.
pub proof fn lemma_no_separators(c: LineCursor)
    ensures
        c.separators(0) == (c, Ok::<(), ErrorView>(())),
{
    assert(c.moved_to(c.pos + 0) == c);
}

/// The run of separators at the position is what its count says: `k` of
/// them stand there, and behind them, unless `n` are counted, stands other
/// text or the end of the line.
pub proof fn lemma_separator_run_counts(c: LineCursor, n: nat)
    requires
        c.wf(),
    ensures
        c.separator_run(n) <= n,
        c.pos + c.separator_run(n) <= c.line.len(),
        forall|i: int|
            c.pos <= i < c.pos + c.separator_run(n) ==> c.line[i] == c.separator.spec_to_char(),
        c.separator_run(n) < n && c.pos + c.separator_run(n) < c.line.len() ==> c.line[c.pos
            + c.separator_run(n)] != c.separator.spec_to_char(),
    decreases n,
{
    if n > 0 && c.pos < c.line.len() && c.line[c.pos] == c.separator.spec_to_char() {
        lemma_separator_run_counts(c.moved_to(c.pos + 1), (n - 1) as nat);
    }
}

/// Separators are consumed exactly where `n` of them stand in a row at the
/// position. Where the line ends first, its end is the error and the position
/// stays; else the error is the text that stands in the way, and the position
/// stays in front of it.
pub proof fn lemma_separators_in_a_row(c: LineCursor, n: nat)
    requires
        c.wf(),
    ensures
        c.separators(n).1 is Ok <==> c.pos + n <= c.line.len() && forall|i: int|
            c.pos <= i < c.pos + n ==> c.line[i] == c.separator.spec_to_char(),
        c.separators(n).1 is Ok ==> c.separators(n).0 == c.moved_to(c.pos + n),
        c.separators(n).1 matches Err(e) ==> if c.pos + c.separator_run(n) == c.line.len() {
            e.kind is ParseEolUnexpected && c.separators(n).0 == c
        } else {
            e.kind is ParseSeparatorExpected && c.separators(n).0 == c.moved_to(
                c.pos + c.separator_run(n),
            )
        },
{
    lemma_separator_run_counts(c, n);
    let k = c.separator_run(n);
    if k < n && c.pos + k < c.line.len() {
        assert(c.line[c.pos + k] != c.separator.spec_to_char());
    }
}

/// A field with an optional value is absent where nothing follows the
/// separator behind its key, and present where a value follows: the value is
/// then what its own parser makes of the rest of the line.
pub proof fn lemma_optional_field<T: Leaf>(c: LineCursor, name: Seq<char>)
    requires
        c.wf(),
        c.pos < c.line.len(),
        c.line[c.pos] == c.separator.spec_to_char(),
        count_from(c.line, c.pos + 1, c.separator.spec_to_char()) == 0,
    ensures
        ({
            let end = c.moved_to(c.line.len() as int);
            let value = c.line.subrange(c.pos + 1, c.line.len() as int);
            c.field_option::<T>(false, name) == if value.len() == 0 {
                (end, Ok::<Option<T::V>, ErrorView>(None))
            } else {
                match T::of_text(value) {
                    Ok(v) => (end, Ok(Some(v))),
                    Err(k) => (end, Err(ErrorView::at(k, c.number))),
                }
            }
        }),
{
    let sep = c.separator.spec_to_char();
    let c1 = c.moved_to(c.pos + 1);
    assert(c1.separator_run(0) == 0);
    assert(c.separator_run(1) == 1);
    assert(c.separators(1) == (c1, Ok::<(), ErrorView>(())));
    lemma_token_end(c.line, c.pos + 1, sep);
    lemma_token_holds_no_separator(c.line, c.pos + 1, sep);
    let e = token_end(c.line, c.pos + 1, sep);
    if e < c.line.len() {
        assert(count_from(c.line, e, sep) >= 1);
    }
}

/// A line that ends with a separator holds a separator from every position
/// within it on.
pub proof fn lemma_last_separator_counts(line: Seq<char>, pos: int, sep: char)
    requires
        0 <= pos < line.len(),
        line.last() == sep,
    ensures
        count_from(line, pos, sep) >= 1,
    decreases line.len() - pos,
{
    if pos + 1 < line.len() {
        lemma_last_separator_counts(line, pos + 1, sep);
    }
}

/// How many elements a list takes from the rest of a line: none where the
/// line ends; else one for each separator that is left, and one more where
/// the first element stands without a separator in front of it. In the style
/// `Leading` a separator at the very end of the line brings no element.
pub open spec fn elements_left(c: LineCursor, first: bool) -> nat {
    let separators = count_from(c.line, c.pos, c.separator.spec_to_char());
    let leading: nat = if first && c.style != SequenceStyle::AlwaysLeading {
        1
    } else {
        0
    };
    let trailing: nat = if c.style == SequenceStyle::Leading && c.line.last()
        == c.separator.spec_to_char() {
        1
    } else {
        0
    };
    if c.at_end() {
        0
    } else {
        (separators + leading - trailing) as nat
    }
}

/// A list that is decoded takes exactly the tokens that the separators cut
/// the rest of the line into, in each of the three styles, and ends at the end
/// of the line. The line itself stays: a list never reads beyond it.
pub proof fn lemma_list_takes_the_line<T: Leaf>(c: LineCursor, first: bool, acc: Seq<T::V>)
    requires
        c.wf(),
    ensures
        c.leaves::<T>(first, acc).0.line == c.line,
        c.leaves::<T>(first, acc).0.number == c.number,
        c.leaves::<T>(first, acc).1 matches Ok(v) ==> v.len() == acc.len() + elements_left(
            c,
            first,
        ) && c.leaves::<T>(first, acc).0.at_end(),
    decreases c.left(), (if first { 1int } else { 0int }),
{
    let sep = c.separator.spec_to_char();
    let (c1, n) = c.sequence_next(c.style, first);
    if !c.at_end() {
        if c.line.last() == sep {
            lemma_last_separator_counts(c.line, c.pos, sep);
        }
        if !(first && c.style != SequenceStyle::AlwaysLeading) {
            assert(c.moved_to(c.pos + 1).separator_run(0) == 0);
            if c.separators(1).1 is Ok {
                assert(c.separator_run(1) == 1);
                assert(c.line[c.pos] == sep);
            }
        }
    }
    if n == Ok::<bool, ErrorView>(true) {
        lemma_token_end(c1.line, c1.pos, sep);
        lemma_token_holds_no_separator(c1.line, c1.pos, sep);
        let (c2, v) = c1.leaf::<T>();
        if let Ok(x) = v {
            lemma_list_takes_the_line::<T>(c2, false, acc.push(x));
            if c2.pos < c2.line.len() {
                assert(count_from(c2.line, c2.pos, sep) >= 1);
                if c2.line.last() == sep {
                    lemma_last_separator_counts(c2.line, c2.pos, sep);
                }
            } else {
                assert(c1.pos < c1.line.len());
                assert(c.line[c.line.len() - 1] != sep);
            }
        }
    }
}

/// A file whose input ends behind the line that follows its header has no
/// segments, and decodes without error.
pub proof fn lemma_file_without_segments(input: Seq<Result<Seq<char>, Seq<char>>>)
    requires
        Cursor::open(input) is Ok,
        Cursor::open(input)->Ok_0.file_header().1 is Ok,
        ({
            let c1 = Cursor::open(input)->Ok_0.file_header().0;
            let c2 = c1.newline().0;
            let c3 = c2.within(c2.cur.separators(1)).0;
            &&& c1.newline().1 is Ok
            &&& c2.cur.separators(1).1 is Ok
            &&& c3.cur.at_end()
            &&& c3.rest.len() == 0
        }),
    ensures
        decode(input) == Ok::<FileView, ErrorView>(
            FileView {
                header: Cursor::open(input)->Ok_0.file_header().1->Ok_0,
                measurements: Seq::empty(),
            },
        ),
{
}

/// An error, if there is one, stands in the context of `line` and of no
/// other line.
pub open spec fn names_only<T>(r: Result<T, ErrorView>, line: int) -> bool {
    r matches Err(e) ==> e.lines =~= seq![line]
}

/// A step stays on its line: line, line number, separator and style are what
/// they were, a position within the line moves forward within the line, and
/// an error stands in the context of this line.
pub open spec fn stays_on_line<T>(c: LineCursor, out: (LineCursor, Result<T, ErrorView>)) -> bool {
    &&& out.0.line == c.line
    &&& out.0.number == c.number
    &&& out.0.separator == c.separator
    &&& out.0.style == c.style
    &&& c.wf() ==> c.pos <= out.0.pos && out.0.wf()
    &&& names_only(out.1, c.number)
}

/// Tokens, separators, booleans and the protocols of lists and tuples stay
/// on their line.
pub proof fn lemma_tokens_stay(c: LineCursor)
    ensures
        stays_on_line(c, c.token()),
        stays_on_line(c, c.boolean()),
        stays_on_line(c, c.character()),
        forall|n: nat| stays_on_line(c, #[trigger] c.separators(n)),
        forall|style: SequenceStyle, first: bool|
            stays_on_line(c, #[trigger] c.sequence_next(style, first)),
        forall|seen: bool, name: Seq<char>| stays_on_line(c, #[trigger] c.begin_field(seen, name)),
{
    let sep = c.separator.spec_to_char();
    lemma_token_end(c.line, c.pos, sep);
    assert forall|n: nat| stays_on_line(c, #[trigger] c.separators(n)) by {
        if c.wf() {
            lemma_separator_run_counts(c, n);
        }
    }
    if c.wf() {
        lemma_separator_run_counts(c, 1);
    }
}

/// A single value and an optional value stay on their line.
pub proof fn lemma_leaf_stays<T: Leaf>(c: LineCursor)
    ensures
        stays_on_line(c, c.leaf::<T>()),
        stays_on_line(c, c.optional::<T>()),
{
    lemma_tokens_stay(c);
}

/// A list of values stays on its line.
pub proof fn lemma_leaves_stay<T: Leaf>(c: LineCursor, first: bool, acc: Seq<T::V>)
    ensures
        stays_on_line(c, c.leaves::<T>(first, acc)),
    decreases c.left(), (if first { 1int } else { 0int }),
{
    lemma_tokens_stay(c);
    let (c1, n) = c.sequence_next(c.style, first);
    if n == Ok::<bool, ErrorView>(true) {
        lemma_token_end(c1.line, c1.pos, c1.separator.spec_to_char());
        lemma_leaf_stays::<T>(c1);
        let (c2, v) = c1.leaf::<T>();
        if let Ok(x) = v {
            lemma_leaves_stay::<T>(c2, false, acc.push(x));
        }
    }
}

/// An optional list of values stays on its line.
pub proof fn lemma_optional_leaves_stay<T: Leaf>(c: LineCursor)
    ensures
        stays_on_line(c, c.optional_leaves::<T>()),
{
    lemma_leaves_stay::<T>(c, true, Seq::empty());
}

/// The channels of a segment stay on their line.
pub proof fn lemma_channels_stay(c: LineCursor)
    ensures
        stays_on_line(c, c.channels()),
{
    lemma_leaf_stays::<usize>(c);
    let (c1, n) = c.leaf::<usize>();
    lemma_tokens_stay(c1);
    let (c2, s) = c1.separators(1);
    lemma_leaves_stay::<ChannelName>(c2, true, Seq::empty());
}

/// The numbers of a data row stay on their line.
pub proof fn lemma_reals_stay(c: LineCursor, first: bool, acc: Seq<Seq<char>>)
    ensures
        stays_on_line(c, c.reals(first, acc)),
    decreases c.left(), (if first { 1int } else { 0int }),
{
    lemma_tokens_stay(c);
    let (c1, n) = c.sequence_next(c.style, first);
    if n == Ok::<bool, ErrorView>(true) {
        lemma_token_end(c1.line, c1.pos, c1.separator.spec_to_char());
        lemma_tokens_stay(c1);
        let (c2, t) = c1.token();
        if let Ok(text) = t {
            if text.len() != 0 {
                if let Ok(x) = Real::of_text(text) {
                    lemma_reals_stay(c2, false, acc.push(x));
                }
            }
        }
    }
}

/// A data row stays on its line.
pub proof fn lemma_data_row_stays(c: LineCursor)
    ensures
        stays_on_line(c, c.data_row()),
{
    lemma_reals_stay(c, true, Seq::empty());
    let (c1, v) = c.reals(true, Seq::empty());
    lemma_tokens_stay(c1);
    let (c2, s) = c1.separators(1);
    lemma_leaf_stays::<String>(c2);
}

/// The value of a field stays on its line, whatever its shape.
pub proof fn lemma_field_stays<T: Leaf>(c: LineCursor, seen: bool, name: Seq<char>)
    ensures
        stays_on_line(c, c.field_leaf::<T>(seen, name)),
        stays_on_line(c, c.field_bool(seen, name)),
        stays_on_line(c, c.field_option::<T>(seen, name)),
        stays_on_line(c, c.field_leaves::<T>(seen, name)),
        stays_on_line(c, c.field_option_leaves::<T>(seen, name)),
        stays_on_line(c, c.field_channels(seen, name)),
{
    lemma_tokens_stay(c);
    let (c1, b) = c.begin_field(seen, name);
    lemma_tokens_stay(c1);
    lemma_leaf_stays::<T>(c1);
    lemma_leaves_stay::<T>(c1, true, Seq::empty());
    lemma_optional_leaves_stay::<T>(c1);
    lemma_channels_stay(c1);
}

/// The state is sound: the position lies within the current line, and the
/// line number counts the lines that were read, so that with the lines that
/// are left it makes up the `total` of the input.
pub open spec fn counts_lines(c: Cursor, total: int) -> bool {
    &&& c.cur.wf()
    &&& 1 <= c.cur.number
    &&& c.cur.number + c.rest.len() == total
}

/// A step moves forward through the input: a sound state stays sound, and an
/// error stands in the context of the line on which the step stopped.
pub open spec fn moves_forward<T>(
    c: Cursor,
    out: (Cursor, Result<T, ErrorView>),
    total: int,
) -> bool {
    counts_lines(c, total) ==> counts_lines(out.0, total) && names_only(out.1, out.0.cur.number)
}

/// The move to the next line moves forward.
pub proof fn lemma_lines_move_forward(c: Cursor, total: int)
    ensures
        moves_forward(c, c.next_line(), total),
        moves_forward(c, c.newline(), total),
{
}

/// A step that stays on its line moves forward.
pub proof fn lemma_within_moves_forward<T>(
    c: Cursor,
    out: (LineCursor, Result<T, ErrorView>),
    total: int,
)
    requires
        stays_on_line(c.cur, out),
    ensures
        moves_forward(c, c.within(out), total),
{
}

/// The fields of the header of a file move forward.
pub proof fn lemma_file_header_fields_move_forward(
    c: Cursor,
    fields: FileHeaderFieldsView,
    total: int,
)
    ensures
        moves_forward(c, c.file_header_fields(fields), total),
    decreases c.rest.len(),
{
    lemma_file_header_entry_stays(c.cur, fields);
    lemma_within_moves_forward(c, c.cur.file_header_entry(fields), total);
    let (c1, e) = c.within(c.cur.file_header_entry(fields));
    if let Ok((false, f)) = e {
        lemma_lines_move_forward(c1, total);
        let (c2, n) = c1.newline();
        if n is Ok {
            lemma_file_header_fields_move_forward(c2, f, total);
        }
    }
}

/// The header of a file moves forward.
pub proof fn lemma_file_header_moves_forward(c: Cursor, total: int)
    ensures
        moves_forward(c, c.file_header(), total),
{
    lemma_file_header_fields_move_forward(c, FileHeaderFieldsView::empty(), total);
    let (c1, r) = c.file_header_fields(FileHeaderFieldsView::empty());
    lemma_tokens_stay(c1.cur);
    lemma_within_moves_forward(c1, c1.cur.separators(1), total);
}

/// The fields of the header of a segment move forward.
pub proof fn lemma_measurement_header_fields_move_forward(
    c: Cursor,
    fields: MeasurementHeaderFieldsView,
    total: int,
)
    ensures
        moves_forward(c, c.measurement_header_fields(fields), total),
    decreases c.rest.len(),
{
    lemma_measurement_header_entry_stays(c.cur, fields);
    lemma_within_moves_forward(c, c.cur.measurement_header_entry(fields), total);
    let (c1, e) = c.within(c.cur.measurement_header_entry(fields));
    if let Ok((false, f)) = e {
        lemma_lines_move_forward(c1, total);
        let (c2, n) = c1.newline();
        if n is Ok {
            lemma_measurement_header_fields_move_forward(c2, f, total);
        }
    }
}

/// The header of a segment moves forward.
pub proof fn lemma_measurement_header_moves_forward(c: Cursor, total: int)
    ensures
        moves_forward(c, c.measurement_header(), total),
{
    lemma_measurement_header_fields_move_forward(c, MeasurementHeaderFieldsView::empty(), total);
    let (c1, r) = c.measurement_header_fields(MeasurementHeaderFieldsView::empty());
    lemma_tokens_stay(c1.cur);
    lemma_within_moves_forward(c1, c1.cur.separators(1), total);
}

/// The head of a segment moves forward.
pub proof fn lemma_segment_header_moves_forward(c: Cursor, total: int)
    ensures
        moves_forward(c, c.segment_header(), total),
{
    let c0 = c.with_style(SequenceStyle::Leading);
    lemma_measurement_header_moves_forward(c0, total);
    let (c1, h) = c0.measurement_header();
    if let Ok(header) = h {
        lemma_tokens_stay(c1.cur);
        lemma_within_moves_forward(c1, c1.cur.separators(header.channels.0 as nat), total);
        let (c2, s) = c1.within(c1.cur.separators(header.channels.0 as nat));
        lemma_lines_move_forward(c2, total);
    }
}

/// The headings of a segment move forward.
pub proof fn lemma_segment_headings_move_forward(c: Cursor, total: int)
    ensures
        moves_forward(c, c.segment_headings(), total),
{
    let c0 = c.with_style(SequenceStyle::TrailingExceptLast);
    lemma_leaves_stay::<String>(c0.cur, true, Seq::empty());
    lemma_within_moves_forward(c0, c0.cur.leaves::<String>(true, Seq::empty()), total);
    let (c1, h) = c0.within(c0.cur.leaves::<String>(true, Seq::empty()));
    lemma_lines_move_forward(c1, total);
}

/// The data rows of a segment move forward.
pub proof fn lemma_data_rows_move_forward(c: Cursor, acc: Seq<DataRowView>, total: int)
    ensures
        moves_forward(c, c.data_rows(acc), total),
    decreases c.rest.len(),
{
    if !c.cur.at_end() {
        lemma_data_row_stays(c.cur);
        lemma_within_moves_forward(c, c.cur.data_row(), total);
        let (c1, r) = c.within(c.cur.data_row());
        if let Ok(row) = r {
            lemma_lines_move_forward(c1, total);
            let (c2, n) = c1.next_line();
            if n == Ok::<bool, ErrorView>(true) {
                lemma_data_rows_move_forward(c2, acc.push(row), total);
            }
        }
    }
}

/// A segment moves forward.
pub proof fn lemma_measurement_moves_forward(c: Cursor, x_columns: XColumns, total: int)
    ensures
        moves_forward(c, c.measurement(x_columns), total),
{
    lemma_segment_header_moves_forward(c, total);
    let (c1, h) = c.segment_header();
    if h is Ok {
        lemma_segment_headings_move_forward(c1, total);
        let (c2, d) = c1.segment_headings();
        if d is Ok {
            match Cursor::row_style(x_columns) {
                Some(style) => {
                    lemma_data_rows_move_forward(c2.with_style(style), Seq::empty(), total);
                },
                None => {},
            }
        }
    }
}

/// The segments of a file move forward.
pub proof fn lemma_measurements_move_forward(
    c: Cursor,
    x_columns: XColumns,
    acc: Seq<MeasurementView>,
    total: int,
)
    ensures
        moves_forward(c, c.measurements(x_columns, acc), total),
    decreases c.rest.len(),
{
    lemma_lines_move_forward(c, total);
    let (c1, n) = c.next_line();
    if n == Ok::<bool, ErrorView>(true) {
        lemma_measurement_moves_forward(c1, x_columns, total);
        lemma_measurement_reads_forward(c1, x_columns);
        let (c2, m) = c1.measurement(x_columns);
        if let Ok(segment) = m {
            lemma_measurements_move_forward(c2, x_columns, acc.push(segment), total);
        }
    }
}

/// A file behind its first line moves forward.
pub proof fn lemma_file_moves_forward(c: Cursor, total: int)
    ensures
        moves_forward(c, c.file(), total),
{
    lemma_file_header_moves_forward(c, total);
    let (c1, h) = c.file_header();
    if let Ok(header) = h {
        lemma_lines_move_forward(c1, total);
        let (c2, n) = c1.newline();
        if n is Ok {
            lemma_tokens_stay(c2.cur);
            lemma_within_moves_forward(c2, c2.cur.separators(1), total);
            let (c3, s) = c2.within(c2.cur.separators(1));
            if s is Ok {
                lemma_measurements_move_forward(c3, header.x_columns, Seq::empty(), total);
            }
        }
    }
}

/// The state behind an accepted first line is sound: it stands at the start
/// of line 2, and its line number counts the lines that were read.
pub proof fn lemma_open_is_sound(input: Seq<Result<Seq<char>, Seq<char>>>)
    ensures
        Cursor::open(input) matches Ok(c) ==> counts_lines(c, input.len() as int) && c.cur.number
            == 2 && c.cur.pos == 0,
        names_only(Cursor::open(input), 1),
{
    if input.len() > 0 && input[0] is Ok && input[0]->Ok_0.len() > 0 {
        let first = input[0]->Ok_0;
        if let Some(separator) = Separator::of_char(first.last()) {
            let start = Cursor {
                rest: input.drop_first(),
                cur: LineCursor {
                    line: Seq::empty(),
                    pos: 0,
                    number: 1,
                    separator,
                    style: SequenceStyle::Leading,
                },
            };
            lemma_lines_move_forward(start, input.len() as int);
        }
    }
}

/// An error of decoding stands in the context of exactly one line: the line
/// on which decoding stopped. That line is a line of the input, counted from
/// 1; of an input without lines it is line 1.
pub proof fn lemma_error_names_one_line(input: Seq<Result<Seq<char>, Seq<char>>>)
    ensures
        1 <= stopped_on_line(input),
        stopped_on_line(input) <= input.len() || stopped_on_line(input) == 1,
        decode(input) matches Err(e) ==> e.lines == seq![stopped_on_line(input)],
{
    lemma_open_is_sound(input);
    let total = input.len() as int;
    if let Ok(c) = Cursor::open(input) {
        lemma_file_moves_forward(c, total);
    }
}

/// A text is free of a character.
pub open spec fn free_of(text: Seq<char>, c: char) -> bool {
    forall|i: int| 0 <= i < text.len() ==> text[i] != c
}

/// A token ends where the first separator stands, or where the line ends
/// without one.
pub proof fn lemma_token_ends_at(line: Seq<char>, pos: int, end: int, sep: char)
    requires
        0 <= pos <= end <= line.len(),
        forall|i: int| pos <= i < end ==> line[i] != sep,
        end == line.len() || line[end] == sep,
    ensures
        token_end(line, pos, sep) == end,
    decreases end - pos,
{
    if pos < end {
        lemma_token_ends_at(line, pos + 1, end, sep);
    }
}

/// Splitting finds the parts of a joined text again, behind any text that
/// stands in front of it: the parts must be there and be free of the
/// separator.
pub proof fn lemma_split_of_join(
    front: Seq<char>,
    parts: Seq<Seq<char>>,
    sep: char,
    acc: Seq<Seq<char>>,
)
    requires
        parts.len() > 0,
        forall|i: int| 0 <= i < parts.len() ==> free_of(#[trigger] parts[i], sep),
    ensures
        split_from(front + join(parts, sep), front.len() as int, sep, acc) == acc + parts,
    decreases parts.len(),
{
    let text = front + join(parts, sep);
    let pos = front.len() as int;
    let part = parts[0];
    let end = pos + part.len();
    assert(free_of(part, sep));
    if parts.len() == 1 {
        assert(text =~= front + part);
        assert forall|i: int| pos <= i < end implies text[i] != sep by {
            assert(text[i] == part[i - pos]);
        }
        lemma_token_ends_at(text, pos, end, sep);
        assert(text.subrange(pos, end) =~= part);
        assert(acc.push(part) =~= acc + parts);
    } else {
        let rest = parts.drop_first();
        let tail = join(rest, sep);
        assert(text =~= front + part.push(sep) + tail);
        assert forall|i: int| pos <= i < end implies text[i] != sep by {
            assert(text[i] == part[i - pos]);
        }
        assert(text[end] == sep);
        lemma_token_ends_at(text, pos, end, sep);
        assert(text.subrange(pos, end) =~= part);
        assert forall|i: int| 0 <= i < rest.len() implies free_of(#[trigger] rest[i], sep) by {
            assert(rest[i] == parts[i + 1]);
        }
        lemma_split_of_join(front + part.push(sep), rest, sep, acc.push(part));
        assert(text =~= (front + part.push(sep)) + tail);
        assert(acc.push(part) + rest =~= acc + parts);
    }
}

/// Test numbers come back from their text: the text of one or more numbers
/// without a semicolon in them lists these numbers.
pub proof fn lemma_test_numbers_come_back(numbers: Seq<Seq<char>>)
    requires
        numbers.len() > 0,
        forall|i: int|
            0 <= i < numbers.len() ==> free_of(#[trigger] numbers[i], TEST_NUMBERS_SEPARATOR),
    ensures
        split(join(numbers, TEST_NUMBERS_SEPARATOR), TEST_NUMBERS_SEPARATOR) == numbers,
{
    let text = join(numbers, TEST_NUMBERS_SEPARATOR);
    lemma_split_of_join(Seq::empty(), numbers, TEST_NUMBERS_SEPARATOR, Seq::empty());
    assert(Seq::<char>::empty() + text =~= text);
    assert(Seq::<Seq<char>>::empty() + numbers =~= numbers);
}

/// The parts that are split off behind the parts `acc` are the parts that are
/// split off behind none, and there is at least one of them.
pub proof fn lemma_split_behind(text: Seq<char>, pos: int, sep: char, acc: Seq<Seq<char>>)
    ensures
        split_from(text, pos, sep, acc) == acc + split_from(text, pos, sep, Seq::empty()),
        split_from(text, pos, sep, Seq::empty()).len() >= 1,
    decreases text.len() - pos,
{
    let end = token_end(text, pos, sep);
    let part = text.subrange(pos, end);
    let none = Seq::<Seq<char>>::empty();
    if 0 <= pos && end < text.len() {
        lemma_token_end(text, pos, sep);
        lemma_split_behind(text, end + 1, sep, acc.push(part));
        lemma_split_behind(text, end + 1, sep, none.push(part));
        let later = split_from(text, end + 1, sep, none);
        assert(acc.push(part) + later =~= acc + (none.push(part) + later));
    } else {
        assert(acc.push(part) =~= acc + none.push(part));
    }
}

/// Joining puts a text together again from the parts that it was split
/// into.
pub proof fn lemma_join_of_split(text: Seq<char>, pos: int, sep: char)
    requires
        0 <= pos <= text.len(),
    ensures
        join(split_from(text, pos, sep, Seq::empty()), sep) == text.subrange(
            pos,
            text.len() as int,
        ),
    decreases text.len() - pos,
{
    let end = token_end(text, pos, sep);
    let part = text.subrange(pos, end);
    let none = Seq::<Seq<char>>::empty();
    lemma_token_end(text, pos, sep);
    if end < text.len() {
        let later = split_from(text, end + 1, sep, none);
        lemma_split_behind(text, end + 1, sep, none.push(part));
        lemma_join_of_split(text, end + 1, sep);
        let parts = none.push(part) + later;
        assert(parts.drop_first() =~= later);
        assert(parts[0] == part);
        assert(part.push(sep) + text.subrange(end + 1, text.len() as int) =~= text.subrange(
            pos,
            text.len() as int,
        ));
    } else {
        assert(none.push(part)[0] == part);
    }
}

/// A text comes back from its test numbers: the numbers that a text lists
/// have this text.
pub proof fn lemma_text_comes_back(text: Seq<char>)
    ensures
        join(split(text, TEST_NUMBERS_SEPARATOR), TEST_NUMBERS_SEPARATOR) == text,
{
    lemma_join_of_split(text, 0, TEST_NUMBERS_SEPARATOR);
    assert(text.subrange(0, text.len() as int) =~= text);
}

} // verus!

use labview::lvm_format::{Deserializer, Sequence, SequenceStyle, Tuple};
use labview::{Date, Error, ErrorKind, Separator};

fn open(text: &[&str]) -> Deserializer {
    let mut all = vec![Ok("LabVIEW Measurement\t".to_string())];
    all.extend(text.iter().map(|l| Ok(l.to_string())));
    Deserializer::from_reader(all).unwrap()
}

#[test]
fn tokens_and_separators() {
    let mut de = open(&["ab\t\tc"]);
    assert!(!de.line_is_empty());
    assert_eq!(de.parse_token().unwrap(), "ab");
    assert_eq!(de.parse_token().unwrap(), "");
    de.parse_separators(2).unwrap();
    assert!(!de.peek_newline());
    assert_eq!(de.parse_token().unwrap(), "c");
    assert!(de.peek_newline());
    assert!(de.line_is_empty());
    let err = de.parse_token().unwrap_err();
    assert_eq!(err.kind, ErrorKind::ParseEolUnexpected);
    assert_eq!(err.lines, vec![2]);
}

#[test]
fn separators_that_are_missing() {
    let mut de = open(&["\t\tx\t"]);
    let err = de.parse_separators(3).unwrap_err();
    assert_eq!(err.kind, ErrorKind::ParseSeparatorExpected("x".to_string(), Separator::Tab));
    assert_eq!(err.lines, vec![2]);
    assert_eq!(de.parse_token().unwrap(), "x");
    let err = de.parse_separators(2).unwrap_err();
    assert_eq!(err.kind, ErrorKind::ParseEolUnexpected);
    de.parse_separators(1).unwrap();
    assert!(de.line_is_empty());
}

#[test]
fn no_separators_are_always_there() {
    let mut de = open(&["x", ""]);
    de.parse_separators(0).unwrap();
    assert_eq!(de.parse_token().unwrap(), "x");
    de.parse_separators(0).unwrap();
    de.parse_newline().unwrap();
    de.parse_separators(0).unwrap();
    assert!(de.line_is_empty());
}

#[test]
fn lines() {
    let mut de = open(&["a", "", "b"]);
    let err = de.parse_newline_or_eof().unwrap_err();
    assert_eq!(err.kind, ErrorKind::ParseEolExpected("a".to_string()));
    assert_eq!(err.lines, vec![2]);
    assert_eq!(de.parse_token().unwrap(), "a");
    assert!(de.parse_newline_or_eof().unwrap());
    assert!(de.line_is_empty());
    de.parse_newline().unwrap();
    assert_eq!(de.parse_token().unwrap(), "b");
    assert!(!de.parse_newline_or_eof().unwrap());
    let err = de.parse_newline().unwrap_err();
    assert_eq!(err.kind, ErrorKind::ParseEofUnexpected);
    assert_eq!(err.lines, vec![4]);
}

#[test]
fn booleans() {
    let mut de = open(&["Yes\tNo\tyes"]);
    assert!(de.parse_bool().unwrap());
    de.parse_separators(1).unwrap();
    assert!(!de.parse_bool().unwrap());
    de.parse_separators(1).unwrap();
    let err = de.parse_bool().unwrap_err();
    assert_eq!(
        err.kind,
        ErrorKind::ParseTokenUnexpected(
            "yes".to_string(),
            vec!["No".to_string(), "Yes".to_string()]
        )
    );
    assert_eq!(err.lines, vec![2]);
}

#[test]
fn characters() {
    let mut de = open(&["x\tyz\t\t\u{e9}"]);
    assert_eq!(de.parse_char().unwrap(), 'x');
    de.parse_separators(1).unwrap();
    let err = de.parse_char().unwrap_err();
    assert_eq!(err.kind, ErrorKind::ParseTokenUnexpected("yz".to_string(), vec![]));
    assert_eq!(err.lines, vec![2]);
    de.parse_separators(1).unwrap();
    let err = de.parse_char().unwrap_err();
    assert_eq!(err.kind, ErrorKind::ParseTokenUnexpected(String::new(), vec![]));
    de.parse_separators(1).unwrap();
    assert_eq!(de.parse_char().unwrap(), '\u{e9}');
    assert_eq!(de.parse_char().unwrap_err().kind, ErrorKind::ParseEolUnexpected);
}

#[test]
fn line_context() {
    let mut de = open(&["a", "b"]);
    let err: Result<(), Error> = de.line_error(ErrorKind::ParseEofUnexpected);
    assert_eq!(err.unwrap_err().lines, vec![2]);
    assert_eq!(de.parse_token().unwrap(), "a");
    de.parse_newline().unwrap();
    let inner: Result<u8, Error> = Err(Error::new(ErrorKind::ParseEolUnexpected).chain_line(7));
    let outer = de.line_result(inner).unwrap_err();
    assert_eq!(outer.lines, vec![7, 3]);
    assert_eq!(outer.line(), Some(3));
    assert_eq!(de.line_result(Ok(5)).unwrap(), 5);
}

#[test]
fn list_in_each_style() {
    let mut de = open(&["a\tb\tc", "a\tb\tc", "\ta\tb\tc", "", "a\tb\t"]);
    assert_eq!(de.parse_leaves::<String>().unwrap(), vec!["a", "b", "c"]);
    de.parse_newline().unwrap();
    de.set_sequence_style(SequenceStyle::TrailingExceptLast);
    assert_eq!(de.parse_leaves::<String>().unwrap(), vec!["a", "b", "c"]);
    de.parse_newline().unwrap();
    de.set_sequence_style(SequenceStyle::AlwaysLeading);
    assert_eq!(de.parse_leaves::<String>().unwrap(), vec!["a", "b", "c"]);
    de.parse_newline().unwrap();
    assert!(de.parse_leaves::<String>().unwrap().is_empty());
    de.parse_newline().unwrap();
    de.set_sequence_style(SequenceStyle::TrailingExceptLast);
    let err = de.parse_leaves::<String>().unwrap_err();
    assert_eq!(err.kind, ErrorKind::ParseEolUnexpected);
    assert!(!de.parse_newline_or_eof().unwrap());
}

#[test]
fn separator_behind_the_last_element() {
    let mut de = open(&["a\tb\t", "\t", "a\t\t", "\ta\t"]);
    assert_eq!(de.parse_leaves::<String>().unwrap(), vec!["a", "b"]);
    de.parse_newline().unwrap();
    assert_eq!(de.parse_leaves::<String>().unwrap(), vec![""]);
    de.parse_newline().unwrap();
    assert_eq!(de.parse_leaves::<String>().unwrap(), vec!["a", ""]);
    de.parse_newline().unwrap();
    de.set_sequence_style(SequenceStyle::AlwaysLeading);
    let err = de.parse_leaves::<String>().unwrap_err();
    assert_eq!(err.kind, ErrorKind::ParseEolUnexpected);
}

#[test]
fn first_element_needs_its_separator_only_when_all_do() {
    let mut de = open(&["a\tb", "a\tb"]);
    de.set_sequence_style(SequenceStyle::AlwaysLeading);
    let err = de.parse_leaves::<String>().unwrap_err();
    assert_eq!(err.kind, ErrorKind::ParseSeparatorExpected("a".to_string(), Separator::Tab));
    assert_eq!(de.parse_token().unwrap(), "a");
    assert_eq!(de.parse_leaves::<String>().unwrap(), vec!["b"]);
}

#[test]
fn protocol_of_a_list() {
    let mut de = open(&["a,b\tc"]);
    let mut seq = de.parse_sequence();
    assert!(seq.first);
    assert_eq!(seq.style, SequenceStyle::Leading);
    assert!(seq.next_element().unwrap());
    assert!(!seq.first);
    assert_eq!(seq.de.parse_token().unwrap(), "a,b");
    assert!(seq.next_element().unwrap());
    assert_eq!(seq.de.parse_token().unwrap(), "c");
    assert!(!seq.next_element().unwrap());
    let mut other = Sequence::new(SequenceStyle::AlwaysLeading, &mut de);
    assert!(!other.next_element().unwrap());
    assert!(other.first);
}

#[test]
fn protocol_of_a_tuple() {
    let mut de = open(&["1\t2"]);
    let mut tuple = de.parse_tuple(2);
    assert_eq!((tuple.index, tuple.length), (0, 2));
    assert!(tuple.next_element().unwrap());
    assert_eq!(tuple.de.parse_leaf::<usize>().unwrap(), 1);
    assert!(tuple.next_element().unwrap());
    assert_eq!(tuple.de.parse_leaf::<usize>().unwrap(), 2);
    assert!(!tuple.next_element().unwrap());
    assert_eq!(tuple.index, 2);
    let mut more = Tuple::new(3, &mut de);
    more.index = 1;
    let err = more.next_element().unwrap_err();
    assert_eq!(err.kind, ErrorKind::ParseEolUnexpected);
}

#[test]
fn single_and_optional_values() {
    let mut de = open(&["+17\t2018/05/06\t", "x", "18446744073709551616000"]);
    assert_eq!(de.parse_leaf::<usize>().unwrap(), 17);
    de.parse_separators(1).unwrap();
    let date = de.parse_option::<Date>().unwrap().unwrap();
    assert_eq!((date.year, date.month, date.day), (2018, 5, 6));
    de.parse_separators(1).unwrap();
    assert_eq!(de.parse_option::<Date>().unwrap(), None);
    assert_eq!(de.parse_option_leaves::<usize>().unwrap(), None);
    de.parse_newline().unwrap();
    let err = de.parse_leaf::<usize>().unwrap_err();
    assert!(matches!(err.kind, ErrorKind::ParseIntError(_)));
    assert_eq!(err.lines, vec![3]);
    de.parse_newline().unwrap();
    let err = de.parse_option_leaves::<usize>().unwrap_err();
    assert!(matches!(err.kind, ErrorKind::ParseIntError(_)));
}

#[test]
fn integers() {
    let mut de = open(&["007\t+0\t\t-1\t+\t1 \t\u{661}\t12"]);
    assert_eq!(de.parse_leaf::<usize>().unwrap(), 7);
    de.parse_separators(1).unwrap();
    assert_eq!(de.parse_leaf::<usize>().unwrap(), 0);
    for _ in 0..5 {
        de.parse_separators(1).unwrap();
        let err = de.parse_leaf::<usize>().unwrap_err();
        assert!(matches!(err.kind, ErrorKind::ParseIntError(_)));
    }
    de.parse_separators(1).unwrap();
    assert_eq!(de.parse_leaf::<usize>().unwrap(), 12);
    assert!(de.line_is_empty());
}

#[test]
fn channels_and_rows() {
    let mut de = open(&["2\tA\tB", "1\t2\t\tlast\tone", "3\t\t", "4\t"]);
    let (count, names) = de.parse_channels().unwrap();
    assert_eq!(count, 2);
    assert_eq!(names.len(), 2);
    assert_eq!(names[1].0, "B");
    de.parse_newline().unwrap();
    de.set_sequence_style(SequenceStyle::TrailingExceptLast);
    let row = de.parse_data_row().unwrap();
    assert_eq!(row.values.len(), 2);
    assert_eq!(row.comment, Some("last".to_string()));
    let err = de.parse_newline().unwrap_err();
    assert_eq!(err.kind, ErrorKind::ParseEolExpected("\tone".to_string()));
    assert_eq!(de.parse_token().unwrap(), "");
    de.parse_separators(1).unwrap();
    assert_eq!(de.parse_token().unwrap(), "one");
    de.parse_newline().unwrap();
    let row = de.parse_data_row().unwrap();
    assert_eq!(row.values.len(), 1);
    assert_eq!(row.comment, None);
    de.parse_newline().unwrap();
    let err = de.parse_data_row().unwrap_err();
    assert_eq!(err.kind, ErrorKind::ParseEolUnexpected);
}

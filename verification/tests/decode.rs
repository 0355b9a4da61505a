use labview::lvm_format::from_reader;
use labview::{ErrorKind, Separator, TimePref, Unit, UnitType, XColumns};

fn lines(text: &[&str]) -> Vec<Result<String, String>> {
    text.iter().map(|l| Ok(l.to_string())).collect()
}

fn file_header() -> Vec<&'static str> {
    vec![
        "LabVIEW Measurement\t",
        "Writer_Version\t2",
        "Reader_Version\t2",
        "Separator\tTab",
        "Decimal_Separator\t.",
        "Multi_Headings\tNo",
        "X_Columns\tOne",
        "Time_Pref\tAbsolute",
        "Operator\tuser",
        "Date\t2018/01/02",
        "Time\t12:34:56.5",
        "***End_of_Header***\t",
        "\t",
    ]
}

fn segment_header() -> Vec<&'static str> {
    vec![
        "Channels\t1\tVoltage",
        "Samples\t100",
        "Date\t2018/01/02",
        "Time\t12:34:56.5",
        "X0\t0.0E+0",
        "Delta_X\t0.001",
        "***End_of_Header***\t\t",
        "X_Value\tVoltage\tComment",
    ]
}

fn minimal_file() -> Vec<&'static str> {
    let mut all = file_header();
    all.extend(segment_header());
    all.push("1.0\t\tnote");
    all
}

#[test]
fn minimal_valid_file() {
    let file = from_reader(lines(&minimal_file())).unwrap();
    assert_eq!(file.measurements.len(), 1);
    let segment = &file.measurements[0];
    assert_eq!(segment.data.len(), 1);
    let row = &segment.data[0];
    assert_eq!(row.values.len(), 1);
    assert_eq!(row.values[0].as_str(), "1.0");
    assert_eq!(row.values[0].as_str().parse::<f64>().unwrap(), 1.0);
    assert_eq!(row.comment, Some("note".to_string()));
    assert_eq!(segment.header.channels.0, 1);
    assert_eq!(segment.header.channels.1.len(), 1);
    assert_eq!(segment.header.channels.1[0].0, "Voltage");
    assert_eq!(
        segment.data_headings,
        vec!["X_Value".to_string(), "Voltage".to_string(), "Comment".to_string()]
    );
}

#[test]
fn minimal_file_header_values() {
    let file = from_reader(lines(&minimal_file())).unwrap();
    let header = &file.header;
    assert_eq!((header.date.year, header.date.month, header.date.day), (2018, 1, 2));
    assert_eq!(
        (header.time.hour, header.time.minute, header.time.second, header.time.nanosecond),
        (12, 34, 56, 500_000_000)
    );
    assert_eq!(
        (header.writer_version.major, header.writer_version.minor, header.writer_version.patch),
        (2, 0, 0)
    );
    assert!(header.writer_version.pre.is_empty());
    assert_eq!(header.separator, Separator::Tab);
    assert_eq!(header.time_pref, TimePref::Absolute);
    assert_eq!(header.x_columns, XColumns::One);
    assert!(!header.multi_headings);
    assert_eq!(header.operator.as_ref().unwrap().0, "user");
    assert_eq!(header.description, None);
    assert!(header.project.is_none());
}

#[test]
fn minimal_segment_header_values() {
    let file = from_reader(lines(&minimal_file())).unwrap();
    let header = &file.measurements[0].header;
    assert_eq!(header.samples, vec![100]);
    assert_eq!(header.date.len(), 1);
    assert_eq!(header.date[0].year, 2018);
    assert_eq!(header.x0.len(), 1);
    assert_eq!(header.x0[0].as_str(), "0.0E+0");
    assert_eq!(header.delta_x[0].as_str().parse::<f32>().unwrap(), 0.001);
    assert_eq!(header.y_dimension, UnitType::ElectricPotential);
    assert!(header.notes.is_none());
    assert!(header.x_dimension.is_none());
}

#[test]
fn invalid_magic() {
    let err = from_reader(lines(&["LabVEiw Measurement\t"])).unwrap_err();
    assert_eq!(
        err.kind,
        ErrorKind::ParseTokenUnexpected(
            "LabVEiw Measurement".to_string(),
            vec!["LabVIEW Measurement".to_string()]
        )
    );
    assert_eq!(err.line(), Some(1));
    assert_eq!(err.lines, vec![1]);
}

#[test]
fn bad_separator_declaration() {
    let err = from_reader(lines(&["LabVIEW Measurement;"])).unwrap_err();
    assert_eq!(err.kind, ErrorKind::InvalidSeparator(';'));
    assert_eq!(err.line(), Some(1));
    assert_eq!(err.lines, vec![1]);
}

#[test]
fn separator_is_judged_before_magic() {
    let err = from_reader(lines(&["LabVEiw Measurement;"])).unwrap_err();
    assert_eq!(err.kind, ErrorKind::InvalidSeparator(';'));
    assert_eq!(err.lines, vec![1]);
}

#[test]
fn boolean_with_bad_literal() {
    let err = from_reader(lines(&[
        "LabVIEW Measurement\t",
        "Writer_Version\t2",
        "Multi_Headings\tMaybe",
    ]))
    .unwrap_err();
    assert_eq!(
        err.kind,
        ErrorKind::ParseTokenUnexpected(
            "Maybe".to_string(),
            vec!["No".to_string(), "Yes".to_string()]
        )
    );
    assert_eq!(err.line(), Some(3));
    assert_eq!(err.lines, vec![3]);
}

#[test]
fn truncated_header() {
    let err = from_reader(lines(&[
        "LabVIEW Measurement\t",
        "Writer_Version\t2",
        "Reader_Version\t2",
    ]))
    .unwrap_err();
    assert_eq!(err.kind, ErrorKind::ParseEofUnexpected);
    assert_eq!(err.line(), Some(3));
}

#[test]
fn empty_input() {
    let err = from_reader(Vec::new()).unwrap_err();
    assert_eq!(err.kind, ErrorKind::ParseEofUnexpected);
    assert_eq!(err.lines, vec![1]);
}

#[test]
fn empty_first_line() {
    let err = from_reader(lines(&["", "Date\t2018/01/02"])).unwrap_err();
    assert_eq!(err.kind, ErrorKind::ParseEolUnexpected);
    assert_eq!(err.lines, vec![1]);
}

#[test]
fn only_the_first_line() {
    let err = from_reader(lines(&["LabVIEW Measurement,"])).unwrap_err();
    assert_eq!(err.kind, ErrorKind::ParseEofUnexpected);
    assert_eq!(err.lines, vec![1]);
}

#[test]
fn unreadable_first_line() {
    let err = from_reader(vec![Err("broken pipe".to_string())]).unwrap_err();
    assert_eq!(err.kind, ErrorKind::Io("broken pipe".to_string()));
    assert_eq!(err.line(), Some(1));
    assert_eq!(err.lines, vec![1]);
}

#[test]
fn unreadable_later_line() {
    let mut input = lines(&["LabVIEW Measurement\t", "Writer_Version\t2"]);
    input.push(Err("broken pipe".to_string()));
    let err = from_reader(input).unwrap_err();
    assert_eq!(err.kind, ErrorKind::Io("broken pipe".to_string()));
    assert_eq!(err.line(), Some(2));
}

#[test]
fn zero_segments() {
    let file = from_reader(lines(&file_header())).unwrap();
    assert!(file.measurements.is_empty());
    assert_eq!(file.header.date.day, 2);
}

#[test]
fn decoding_twice_gives_equal_results() {
    let first = from_reader(lines(&minimal_file()));
    let second = from_reader(lines(&minimal_file()));
    assert_eq!(first, second);
    let bad = ["LabVIEW Measurement\t", "Date\t2018/13/01"];
    assert_eq!(from_reader(lines(&bad)), from_reader(lines(&bad)));
}

#[test]
fn comma_separated_file() {
    let file = from_reader(lines(&[
        "LabVIEW Measurement,",
        "Writer_Version,2.1",
        "Reader_Version,2",
        "Separator,Comma",
        "Decimal_Separator,.",
        "Time_Pref,Relative",
        "Date,2020/02/29",
        "Time,00:00:01",
        "Description,two words",
        "***End_of_Header***,",
        ",",
    ]))
    .unwrap();
    assert_eq!(file.header.separator, Separator::Comma);
    assert_eq!(file.header.writer_version.minor, 1);
    assert_eq!(file.header.time_pref, TimePref::Relative);
    assert_eq!(file.header.description, Some("two words".to_string()));
    assert_eq!(file.header.x_columns, XColumns::One);
    assert_eq!(file.header.time.nanosecond, 0);
}

#[test]
fn optional_field_absent_and_present() {
    let mut present = file_header();
    present.insert(1, "Description\tsome text");
    let file = from_reader(lines(&present)).unwrap();
    assert_eq!(file.header.description, Some("some text".to_string()));
    let mut absent = file_header();
    absent.insert(1, "Description\t");
    let file = from_reader(lines(&absent)).unwrap();
    assert_eq!(file.header.description, None);
}

#[test]
fn missing_required_field() {
    let err = from_reader(lines(&[
        "LabVIEW Measurement\t",
        "Writer_Version\t2",
        "***End_of_Header***\t",
    ]))
    .unwrap_err();
    assert_eq!(err.kind, ErrorKind::Deserialize("missing field `Date`".to_string()));
    assert_eq!(err.lines, vec![3]);
}

#[test]
fn duplicate_field() {
    let err = from_reader(lines(&[
        "LabVIEW Measurement\t",
        "Writer_Version\t2",
        "Writer_Version\t2",
    ]))
    .unwrap_err();
    assert_eq!(err.kind, ErrorKind::Deserialize("duplicate field `Writer_Version`".to_string()));
    assert_eq!(err.lines, vec![3]);
}

#[test]
fn unknown_field() {
    let err = from_reader(lines(&["LabVIEW Measurement\t", "Colour\tred"])).unwrap_err();
    assert_eq!(err.kind, ErrorKind::Deserialize("unknown field `Colour`".to_string()));
    assert_eq!(err.lines, vec![2]);
}

#[test]
fn unknown_variant() {
    let err = from_reader(lines(&["LabVIEW Measurement\t", "X_Columns\tTwo"])).unwrap_err();
    assert_eq!(
        err.kind,
        ErrorKind::Deserialize(
            "unknown variant `Two`, expected one of `No`, `One`, `Multi`".to_string()
        )
    );
    let err = from_reader(lines(&["LabVIEW Measurement\t", "Separator\tSpace"])).unwrap_err();
    assert_eq!(
        err.kind,
        ErrorKind::Deserialize("unknown variant `Space`, expected `Comma` or `Tab`".to_string())
    );
    assert_eq!(err.lines, vec![2]);
}

#[test]
fn bad_date_names_its_line() {
    let err = from_reader(lines(&[
        "LabVIEW Measurement\t",
        "Writer_Version\t2",
        "Date\t2018/13/01",
    ]))
    .unwrap_err();
    assert!(matches!(err.kind, ErrorKind::Deserialize(_)));
    assert_eq!(err.lines, vec![3]);
}

#[test]
fn trailing_characters_behind_a_value() {
    let err = from_reader(lines(&["LabVIEW Measurement\t", "Date\t2018/01/02\tmore"]))
        .unwrap_err();
    assert_eq!(err.kind, ErrorKind::ParseEolExpected("\tmore".to_string()));
    assert_eq!(err.line(), Some(2));
}

#[test]
fn text_in_place_of_separator() {
    let mut all = file_header();
    let last = all.len() - 1;
    all[last] = "marker\t";
    let err = from_reader(lines(&all)).unwrap_err();
    assert_eq!(
        err.kind,
        ErrorKind::ParseSeparatorExpected("marker".to_string(), Separator::Tab)
    );
    assert_eq!(err.lines, vec![13]);
}

#[test]
fn missing_line_behind_the_header() {
    let mut all = file_header();
    all.pop();
    let err = from_reader(lines(&all)).unwrap_err();
    assert_eq!(err.kind, ErrorKind::ParseEofUnexpected);
    assert_eq!(err.lines, vec![12]);
}

#[test]
fn separators_of_the_channels_are_counted() {
    let mut all = file_header();
    all.extend(segment_header());
    let at = all.len() - 2;
    all[at] = "***End_of_Header***\t";
    let err = from_reader(lines(&all)).unwrap_err();
    assert_eq!(err.kind, ErrorKind::ParseEolUnexpected);
    assert_eq!(err.line(), Some(20));
}

#[test]
fn no_channels_need_no_separators() {
    let mut all = file_header();
    all.extend(vec![
        "Channels\t0\t",
        "Samples\t",
        "Date\t",
        "Time\t",
        "X0\t",
        "Delta_X\t",
        "***End_of_Header***\t",
        "X_Value",
        "1.5",
    ]);
    let file = from_reader(lines(&all)).unwrap();
    let segment = &file.measurements[0];
    assert_eq!(segment.header.channels.0, 0);
    assert!(segment.header.channels.1.is_empty());
    assert!(segment.header.samples.is_empty());
    assert_eq!(segment.data.len(), 1);
    assert_eq!(segment.data[0].values[0].as_str(), "1.5");
    assert_eq!(segment.data[0].comment, None);
}

#[test]
fn rows_without_comment_and_two_segments() {
    let mut all = file_header();
    all.extend(segment_header());
    all.extend(vec!["0.0\t1.5", "0.1\t-2.5e3", ""]);
    all.extend(segment_header());
    all.push("7\t8");
    let file = from_reader(lines(&all)).unwrap();
    assert_eq!(file.measurements.len(), 2);
    let first = &file.measurements[0];
    assert_eq!(first.data.len(), 2);
    assert_eq!(first.data[1].values.len(), 2);
    assert_eq!(first.data[1].values[1].as_str().parse::<f64>().unwrap(), -2500.0);
    assert_eq!(first.data[1].comment, None);
    assert_eq!(file.measurements[1].data[0].values.len(), 2);
}

#[test]
fn lists_of_a_header_may_end_with_a_separator() {
    let mut all = file_header();
    all.extend(vec![
        "Channels\t2\tA\tB\t",
        "Samples\t100\t200\t",
        "Date\t2018/01/02\t2018/01/03\t",
        "Time\t12:34:56.5\t12:34:57\t",
        "Y_Unit_Label\tVolts\tMilliamps\t",
        "X_Dimension\tTime\tTime\t",
        "X0\t0.0E+0\t1\t",
        "Delta_X\t0.001\t0.002\t",
        "***End_of_Header***\t\t\t",
        "X_Value\tA\tB\tComment",
        "0.0\t1.5\t2.5",
    ]);
    let file = from_reader(lines(&all)).unwrap();
    let header = &file.measurements[0].header;
    assert_eq!(header.channels.0, 2);
    assert_eq!(header.channels.1.len(), 2);
    assert_eq!(header.samples, vec![100, 200]);
    assert_eq!(header.date.len(), 2);
    assert_eq!(header.date[1].day, 3);
    assert_eq!(header.time[1].second, 57);
    assert_eq!(header.y_unit_label, Some(vec![Unit::Volts, Unit::Milliamps]));
    assert_eq!(header.x_dimension, Some(vec![UnitType::Time, UnitType::Time]));
    assert_eq!(header.x_unit_label, None);
    assert_eq!(file.measurements[0].data[0].values.len(), 3);
}

#[test]
fn rows_without_x_values() {
    let mut all = file_header();
    all[6] = "X_Columns\tNo";
    all.extend(segment_header());
    all.extend(vec!["\t1.5", "\t2.5\t\tseen"]);
    let file = from_reader(lines(&all)).unwrap();
    let data = &file.measurements[0].data;
    assert_eq!(data.len(), 2);
    assert_eq!(data[0].values.len(), 1);
    assert_eq!(data[0].values[0].as_str(), "1.5");
    assert_eq!(data[1].values[0].as_str(), "2.5");
    assert_eq!(data[1].comment, Some("seen".to_string()));
}

#[test]
fn one_x_column_for_each_y_column_is_refused() {
    let mut all = file_header();
    all[6] = "X_Columns\tMulti";
    all.extend(segment_header());
    all.push("1.0\t2.0");
    let err = from_reader(lines(&all)).unwrap_err();
    assert_eq!(err.kind, ErrorKind::UnsupportedColumns);
    assert_eq!(err.lines, vec![22]);
}

#[test]
fn bad_number_in_a_row() {
    let mut all = file_header();
    all.extend(segment_header());
    all.extend(vec!["0.0\t1.5", "0.1\tx"]);
    let err = from_reader(lines(&all)).unwrap_err();
    assert_eq!(err.kind, ErrorKind::ParseFloatError("invalid float literal".to_string()));
    assert_eq!(err.lines, vec![23]);
}

#[test]
fn bad_integer_in_a_header() {
    let mut all = file_header();
    all.extend(vec!["Channels\t1\tVoltage", "Samples\t12a"]);
    let err = from_reader(lines(&all)).unwrap_err();
    assert_eq!(
        err.kind,
        ErrorKind::ParseIntError("12a".parse::<usize>().unwrap_err().to_string())
    );
    assert_eq!(err.lines, vec![15]);
}

#[test]
fn file_that_ends_behind_the_headings() {
    let mut all = file_header();
    all.extend(segment_header());
    let err = from_reader(lines(&all)).unwrap_err();
    assert_eq!(err.kind, ErrorKind::ParseEofUnexpected);
    assert_eq!(err.lines, vec![21]);
}

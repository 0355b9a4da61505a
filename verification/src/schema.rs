use crate::errors::{outcome, Error, ErrorKind, ErrorKindView, ErrorView};
use crate::laws::{lemma_field_stays, lemma_tokens_stay, stays_on_line};
use crate::lvm::{
    ChannelName, Date, DecimalSeparator, FileHeader, FileHeaderView, InstrumentName,
    MeasurementHeader, MeasurementHeaderView, ModelNumber, OperatorName, ProjectName, Real,
    Separator, SerialNumber, TestName, TestNumbers, TestSeries, Time, TimePref, Unit, UnitType,
    Version, VersionView, XColumns,
};
use crate::lvm_format::{
    missing_field_text, sentinel, unknown_field_text, Cursor, Deserializer, LineCursor,
};
use crate::text::is_text;
use vstd::prelude::*;
use vstd::string::StringExecFns;

verus! {

/// The outcome of storing the value of a field: the fields with the value
/// put in, and the word that the block is not closed.
pub open spec fn stored<V, S>(out: (LineCursor, Result<V, ErrorView>), put: spec_fn(V) -> S) -> (
    LineCursor,
    Result<(bool, S), ErrorView>,
) {
    match out.1 {
        Err(e) => (out.0, Err(e)),
        Ok(v) => (out.0, Ok((false, put(v)))),
    }
}

/// Storing the value of a field that stays on its line stays on that line.
pub proof fn lemma_stored_stays<V, S>(
    c: LineCursor,
    c1: LineCursor,
    out: (LineCursor, Result<V, ErrorView>),
)
    requires
        stays_on_line(c, (c1, Ok::<(), ErrorView>(()))),
        stays_on_line(c1, out),
    ensures
        forall|put: spec_fn(V) -> S| stays_on_line(c, #[trigger] stored(out, put)),
{
}

/// The error for a field that a block of fields must hold and lacks.
fn missing_field(name: &str) -> (e: ErrorKind)
    ensures
        e.deep_view() == ErrorKindView::Deserialize(missing_field_text(name@)),
{
    let m = "missing field `".to_owned().concat(name).concat("`");
    ErrorKind::Deserialize(m)
}

/// The fields of the header of a file that were decoded so far; `None` stands
/// for a field that was not met yet.
#[derive(Debug)]
pub struct FileHeaderFields {
    pub date: Option<Date>,
    pub description: Option<Option<String>>,
    pub decimal_separator: Option<DecimalSeparator>,
    pub multi_headings: Option<bool>,
    pub operator: Option<Option<OperatorName>>,
    pub project: Option<Option<ProjectName>>,
    pub reader_version: Option<Version>,
    pub separator: Option<Separator>,
    pub time: Option<Time>,
    pub time_pref: Option<TimePref>,
    pub writer_version: Option<Version>,
    pub x_columns: Option<XColumns>,
}

/// The mathematical value of [`FileHeaderFields`].
pub struct FileHeaderFieldsView {
    pub date: Option<Date>,
    pub description: Option<Option<Seq<char>>>,
    pub decimal_separator: Option<DecimalSeparator>,
    pub multi_headings: Option<bool>,
    pub operator: Option<Option<Seq<char>>>,
    pub project: Option<Option<Seq<char>>>,
    pub reader_version: Option<VersionView>,
    pub separator: Option<Separator>,
    pub time: Option<Time>,
    pub time_pref: Option<TimePref>,
    pub writer_version: Option<VersionView>,
    pub x_columns: Option<XColumns>,
}

impl DeepView for FileHeaderFields {
    type V = FileHeaderFieldsView;

    open spec fn deep_view(&self) -> FileHeaderFieldsView {
        FileHeaderFieldsView {
            date: self.date.deep_view(),
            description: self.description.deep_view(),
            decimal_separator: self.decimal_separator.deep_view(),
            multi_headings: self.multi_headings.deep_view(),
            operator: self.operator.deep_view(),
            project: self.project.deep_view(),
            reader_version: self.reader_version.deep_view(),
            separator: self.separator.deep_view(),
            time: self.time.deep_view(),
            time_pref: self.time_pref.deep_view(),
            writer_version: self.writer_version.deep_view(),
            x_columns: self.x_columns.deep_view(),
        }
    }
}

impl FileHeaderFieldsView {
    /// No field was met.
    pub open spec fn empty() -> FileHeaderFieldsView {
        FileHeaderFieldsView {
            date: None,
            description: None,
            decimal_separator: None,
            multi_headings: None,
            operator: None,
            project: None,
            reader_version: None,
            separator: None,
            time: None,
            time_pref: None,
            writer_version: None,
            x_columns: None,
        }
    }

    /// The first of the fields that the header of a file must hold and that
    /// was not met: `Date`, `Decimal_Separator`, `Reader_Version`, `Time`,
    /// `Time_Pref`, `Writer_Version`, in this order.
    pub open spec fn missing(self) -> Option<Seq<char>> {
        if self.date is None {
            Some("Date"@)
        } else if self.decimal_separator is None {
            Some("Decimal_Separator"@)
        } else if self.reader_version is None {
            Some("Reader_Version"@)
        } else if self.time is None {
            Some("Time"@)
        } else if self.time_pref is None {
            Some("Time_Pref"@)
        } else if self.writer_version is None {
            Some("Writer_Version"@)
        } else {
            None
        }
    }

    /// The record made of the fields. A field that must be there and is not is
    /// an error. Of the others, a field that was not met is absent, or has its
    /// default: `false` for `Multi_Headings`, `Tab` for `Separator`, `One` for
    /// `X_Columns`.
    pub open spec fn finish(self) -> Result<FileHeaderView, ErrorKindView> {
        match self.missing() {
            Some(name) => Err(ErrorKindView::Deserialize(missing_field_text(name))),
            None => Ok(
                FileHeaderView {
                    date: self.date->0,
                    description: match self.description {
                        Some(v) => v,
                        None => None,
                    },
                    decimal_separator: self.decimal_separator->0,
                    multi_headings: match self.multi_headings {
                        Some(v) => v,
                        None => false,
                    },
                    operator: match self.operator {
                        Some(v) => v,
                        None => None,
                    },
                    project: match self.project {
                        Some(v) => v,
                        None => None,
                    },
                    reader_version: self.reader_version->0,
                    separator: match self.separator {
                        Some(v) => v,
                        None => Separator::Tab,
                    },
                    time: self.time->0,
                    time_pref: self.time_pref->0,
                    writer_version: self.writer_version->0,
                    x_columns: match self.x_columns {
                        Some(v) => v,
                        None => XColumns::One,
                    },
                },
            ),
        }
    }
}

impl FileHeaderFields {
    /// No field was met.
    pub fn new() -> (f: FileHeaderFields)
        ensures
            f.deep_view() == FileHeaderFieldsView::empty(),
    {
        FileHeaderFields {
            date: None,
            description: None,
            decimal_separator: None,
            multi_headings: None,
            operator: None,
            project: None,
            reader_version: None,
            separator: None,
            time: None,
            time_pref: None,
            writer_version: None,
            x_columns: None,
        }
    }

    /// The record made of the fields, or the error for the first field that
    /// must be there and is not.
    pub fn finish(self) -> (r: Result<FileHeader, ErrorKind>)
        ensures
            outcome(r) == self.deep_view().finish(),
    {
        let date = match self.date {
            Some(v) => v,
            None => {
                return Err(missing_field("Date"));
            },
        };
        let description = match self.description {
            Some(v) => v,
            None => None,
        };
        let decimal_separator = match self.decimal_separator {
            Some(v) => v,
            None => {
                return Err(missing_field("Decimal_Separator"));
            },
        };
        let multi_headings = match self.multi_headings {
            Some(v) => v,
            None => false,
        };
        let operator = match self.operator {
            Some(v) => v,
            None => None,
        };
        let project = match self.project {
            Some(v) => v,
            None => None,
        };
        let reader_version = match self.reader_version {
            Some(v) => v,
            None => {
                return Err(missing_field("Reader_Version"));
            },
        };
        let separator = match self.separator {
            Some(v) => v,
            None => Separator::Tab,
        };
        let time = match self.time {
            Some(v) => v,
            None => {
                return Err(missing_field("Time"));
            },
        };
        let time_pref = match self.time_pref {
            Some(v) => v,
            None => {
                return Err(missing_field("Time_Pref"));
            },
        };
        let writer_version = match self.writer_version {
            Some(v) => v,
            None => {
                return Err(missing_field("Writer_Version"));
            },
        };
        let x_columns = match self.x_columns {
            Some(v) => v,
            None => XColumns::One,
        };
        Ok(
            FileHeader {
                date,
                description,
                decimal_separator,
                multi_headings,
                operator,
                project,
                reader_version,
                separator,
                time,
                time_pref,
                writer_version,
                x_columns,
            },
        )
    }
}

/// The fields of the header of a segment that were decoded so far; `None`
/// stands for a field that was not met yet.
#[derive(Debug)]
pub struct MeasurementHeaderFields {
    pub channels: Option<(usize, Vec<ChannelName>)>,
    pub date: Option<Vec<Date>>,
    pub delta_x: Option<Vec<Real>>,
    pub notes: Option<Option<String>>,
    pub samples: Option<Vec<usize>>,
    pub test_name: Option<Option<TestName>>,
    pub test_numbers: Option<Option<TestNumbers>>,
    pub test_series: Option<Option<TestSeries>>,
    pub time: Option<Vec<Time>>,
    pub uut_mn: Option<Option<ModelNumber>>,
    pub uut_name: Option<Option<InstrumentName>>,
    pub uut_sn: Option<Option<SerialNumber>>,
    pub x0: Option<Vec<Real>>,
    pub x_dimension: Option<Option<Vec<UnitType>>>,
    pub x_unit_label: Option<Option<Vec<Unit>>>,
    pub y_dimension: Option<UnitType>,
    pub y_unit_label: Option<Option<Vec<Unit>>>,
}

/// The mathematical value of [`MeasurementHeaderFields`].
pub struct MeasurementHeaderFieldsView {
    pub channels: Option<(usize, Seq<Seq<char>>)>,
    pub date: Option<Seq<Date>>,
    pub delta_x: Option<Seq<Seq<char>>>,
    pub notes: Option<Option<Seq<char>>>,
    pub samples: Option<Seq<usize>>,
    pub test_name: Option<Option<Seq<char>>>,
    pub test_numbers: Option<Option<Seq<Seq<char>>>>,
    pub test_series: Option<Option<Seq<char>>>,
    pub time: Option<Seq<Time>>,
    pub uut_mn: Option<Option<Seq<char>>>,
    pub uut_name: Option<Option<Seq<char>>>,
    pub uut_sn: Option<Option<Seq<char>>>,
    pub x0: Option<Seq<Seq<char>>>,
    pub x_dimension: Option<Option<Seq<UnitType>>>,
    pub x_unit_label: Option<Option<Seq<Unit>>>,
    pub y_dimension: Option<UnitType>,
    pub y_unit_label: Option<Option<Seq<Unit>>>,
}

impl DeepView for MeasurementHeaderFields {
    type V = MeasurementHeaderFieldsView;

    open spec fn deep_view(&self) -> MeasurementHeaderFieldsView {
        MeasurementHeaderFieldsView {
            channels: self.channels.deep_view(),
            date: self.date.deep_view(),
            delta_x: self.delta_x.deep_view(),
            notes: self.notes.deep_view(),
            samples: self.samples.deep_view(),
            test_name: self.test_name.deep_view(),
            test_numbers: self.test_numbers.deep_view(),
            test_series: self.test_series.deep_view(),
            time: self.time.deep_view(),
            uut_mn: self.uut_mn.deep_view(),
            uut_name: self.uut_name.deep_view(),
            uut_sn: self.uut_sn.deep_view(),
            x0: self.x0.deep_view(),
            x_dimension: self.x_dimension.deep_view(),
            x_unit_label: self.x_unit_label.deep_view(),
            y_dimension: self.y_dimension.deep_view(),
            y_unit_label: self.y_unit_label.deep_view(),
        }
    }
}

impl MeasurementHeaderFieldsView {
    /// No field was met.
    pub open spec fn empty() -> MeasurementHeaderFieldsView {
        MeasurementHeaderFieldsView {
            channels: None,
            date: None,
            delta_x: None,
            notes: None,
            samples: None,
            test_name: None,
            test_numbers: None,
            test_series: None,
            time: None,
            uut_mn: None,
            uut_name: None,
            uut_sn: None,
            x0: None,
            x_dimension: None,
            x_unit_label: None,
            y_dimension: None,
            y_unit_label: None,
        }
    }

    /// The first of the fields that the header of a segment must hold and that
    /// was not met: `Channels`, `Date`, `Delta_X`, `Samples`, `Time`, `X0`, in
    /// this order.
    pub open spec fn missing(self) -> Option<Seq<char>> {
        if self.channels is None {
            Some("Channels"@)
        } else if self.date is None {
            Some("Date"@)
        } else if self.delta_x is None {
            Some("Delta_X"@)
        } else if self.samples is None {
            Some("Samples"@)
        } else if self.time is None {
            Some("Time"@)
        } else if self.x0 is None {
            Some("X0"@)
        } else {
            None
        }
    }

    /// The record made of the fields. A field that must be there and is not is
    /// an error. Of the others, a field that was not met is absent, or has its
    /// default: `ElectricPotential` for `Y_Dimension`.
    pub open spec fn finish(self) -> Result<MeasurementHeaderView, ErrorKindView> {
        match self.missing() {
            Some(name) => Err(ErrorKindView::Deserialize(missing_field_text(name))),
            None => Ok(
                MeasurementHeaderView {
                    channels: self.channels->0,
                    date: self.date->0,
                    delta_x: self.delta_x->0,
                    notes: match self.notes {
                        Some(v) => v,
                        None => None,
                    },
                    samples: self.samples->0,
                    test_name: match self.test_name {
                        Some(v) => v,
                        None => None,
                    },
                    test_numbers: match self.test_numbers {
                        Some(v) => v,
                        None => None,
                    },
                    test_series: match self.test_series {
                        Some(v) => v,
                        None => None,
                    },
                    time: self.time->0,
                    uut_mn: match self.uut_mn {
                        Some(v) => v,
                        None => None,
                    },
                    uut_name: match self.uut_name {
                        Some(v) => v,
                        None => None,
                    },
                    uut_sn: match self.uut_sn {
                        Some(v) => v,
                        None => None,
                    },
                    x0: self.x0->0,
                    x_dimension: match self.x_dimension {
                        Some(v) => v,
                        None => None,
                    },
                    x_unit_label: match self.x_unit_label {
                        Some(v) => v,
                        None => None,
                    },
                    y_dimension: match self.y_dimension {
                        Some(v) => v,
                        None => UnitType::ElectricPotential,
                    },
                    y_unit_label: match self.y_unit_label {
                        Some(v) => v,
                        None => None,
                    },
                },
            ),
        }
    }
}

impl MeasurementHeaderFields {
    /// No field was met.
    pub fn new() -> (f: MeasurementHeaderFields)
        ensures
            f.deep_view() == MeasurementHeaderFieldsView::empty(),
    {
        MeasurementHeaderFields {
            channels: None,
            date: None,
            delta_x: None,
            notes: None,
            samples: None,
            test_name: None,
            test_numbers: None,
            test_series: None,
            time: None,
            uut_mn: None,
            uut_name: None,
            uut_sn: None,
            x0: None,
            x_dimension: None,
            x_unit_label: None,
            y_dimension: None,
            y_unit_label: None,
        }
    }

    /// The record made of the fields, or the error for the first field that
    /// must be there and is not.
    pub fn finish(self) -> (r: Result<MeasurementHeader, ErrorKind>)
        ensures
            outcome(r) == self.deep_view().finish(),
    {
        let channels = match self.channels {
            Some(v) => v,
            None => {
                return Err(missing_field("Channels"));
            },
        };
        let date = match self.date {
            Some(v) => v,
            None => {
                return Err(missing_field("Date"));
            },
        };
        let delta_x = match self.delta_x {
            Some(v) => v,
            None => {
                return Err(missing_field("Delta_X"));
            },
        };
        let notes = match self.notes {
            Some(v) => v,
            None => None,
        };
        let samples = match self.samples {
            Some(v) => v,
            None => {
                return Err(missing_field("Samples"));
            },
        };
        let test_name = match self.test_name {
            Some(v) => v,
            None => None,
        };
        let test_numbers = match self.test_numbers {
            Some(v) => v,
            None => None,
        };
        let test_series = match self.test_series {
            Some(v) => v,
            None => None,
        };
        let time = match self.time {
            Some(v) => v,
            None => {
                return Err(missing_field("Time"));
            },
        };
        let uut_mn = match self.uut_mn {
            Some(v) => v,
            None => None,
        };
        let uut_name = match self.uut_name {
            Some(v) => v,
            None => None,
        };
        let uut_sn = match self.uut_sn {
            Some(v) => v,
            None => None,
        };
        let x0 = match self.x0 {
            Some(v) => v,
            None => {
                return Err(missing_field("X0"));
            },
        };
        let x_dimension = match self.x_dimension {
            Some(v) => v,
            None => None,
        };
        let x_unit_label = match self.x_unit_label {
            Some(v) => v,
            None => None,
        };
        let y_dimension = match self.y_dimension {
            Some(v) => v,
            None => UnitType::ElectricPotential,
        };
        let y_unit_label = match self.y_unit_label {
            Some(v) => v,
            None => None,
        };
        Ok(
            MeasurementHeader {
                channels,
                date,
                delta_x,
                notes,
                samples,
                test_name,
                test_numbers,
                test_series,
                time,
                uut_mn,
                uut_name,
                uut_sn,
                x0,
                x_dimension,
                x_unit_label,
                y_dimension,
                y_unit_label,
            },
        )
    }
}

impl LineCursor {
    /// One entry of the header of a file. The key that closes the block ends
    /// it and leaves the fields as they are. Any other key names a field,
    /// which takes the value that follows in the shape of that field; a field
    /// takes a value once only. A key that names no field is an error.
    pub open spec fn file_header_entry(self, fields: FileHeaderFieldsView) -> (
        LineCursor,
        Result<(bool, FileHeaderFieldsView), ErrorView>,
    ) {
        let (c, k) = self.token();
        match k {
            Err(e) => (c, Err(e)),
            Ok(key) => if key == sentinel() {
                (c, Ok((true, fields)))
            } else if key == "Date"@ {
                stored(
                    c.field_leaf::<Date>(fields.date is Some, key),
                    |v: Date|
                        FileHeaderFieldsView { date: Some(v), ..fields },
                )
            } else if key == "Description"@ {
                stored(
                    c.field_option::<String>(fields.description is Some, key),
                    |v: Option<Seq<char>>|
                        FileHeaderFieldsView { description: Some(v), ..fields },
                )
            } else if key == "Decimal_Separator"@ {
                stored(
                    c.field_leaf::<DecimalSeparator>(fields.decimal_separator is Some, key),
                    |v: DecimalSeparator|
                        FileHeaderFieldsView { decimal_separator: Some(v), ..fields },
                )
            } else if key == "Multi_Headings"@ {
                stored(
                    c.field_bool(fields.multi_headings is Some, key),
                    |v: bool|
                        FileHeaderFieldsView { multi_headings: Some(v), ..fields },
                )
            } else if key == "Operator"@ {
                stored(
                    c.field_option::<OperatorName>(fields.operator is Some, key),
                    |v: Option<Seq<char>>|
                        FileHeaderFieldsView { operator: Some(v), ..fields },
                )
            } else if key == "Project"@ {
                stored(
                    c.field_option::<ProjectName>(fields.project is Some, key),
                    |v: Option<Seq<char>>|
                        FileHeaderFieldsView { project: Some(v), ..fields },
                )
            } else if key == "Reader_Version"@ {
                stored(
                    c.field_leaf::<Version>(fields.reader_version is Some, key),
                    |v: VersionView|
                        FileHeaderFieldsView { reader_version: Some(v), ..fields },
                )
            } else if key == "Separator"@ {
                stored(
                    c.field_leaf::<Separator>(fields.separator is Some, key),
                    |v: Separator|
                        FileHeaderFieldsView { separator: Some(v), ..fields },
                )
            } else if key == "Time"@ {
                stored(
                    c.field_leaf::<Time>(fields.time is Some, key),
                    |v: Time|
                        FileHeaderFieldsView { time: Some(v), ..fields },
                )
            } else if key == "Time_Pref"@ {
                stored(
                    c.field_leaf::<TimePref>(fields.time_pref is Some, key),
                    |v: TimePref|
                        FileHeaderFieldsView { time_pref: Some(v), ..fields },
                )
            } else if key == "Writer_Version"@ {
                stored(
                    c.field_leaf::<Version>(fields.writer_version is Some, key),
                    |v: VersionView|
                        FileHeaderFieldsView { writer_version: Some(v), ..fields },
                )
            } else if key == "X_Columns"@ {
                stored(
                    c.field_leaf::<XColumns>(fields.x_columns is Some, key),
                    |v: XColumns|
                        FileHeaderFieldsView { x_columns: Some(v), ..fields },
                )
            } else {
                c.fail(ErrorKindView::Deserialize(unknown_field_text(key)))
            },
        }
    }

    /// One entry of the header of a segment. The key that closes the block
    /// ends it and leaves the fields as they are. Any other key names a field,
    /// which takes the value that follows in the shape of that field; a field
    /// takes a value once only. A key that names no field is an error.
    pub open spec fn measurement_header_entry(self, fields: MeasurementHeaderFieldsView) -> (
        LineCursor,
        Result<(bool, MeasurementHeaderFieldsView), ErrorView>,
    ) {
        let (c, k) = self.token();
        match k {
            Err(e) => (c, Err(e)),
            Ok(key) => if key == sentinel() {
                (c, Ok((true, fields)))
            } else if key == "Channels"@ {
                stored(
                    c.field_channels(fields.channels is Some, key),
                    |v: (usize, Seq<Seq<char>>)|
                        MeasurementHeaderFieldsView { channels: Some(v), ..fields },
                )
            } else if key == "Date"@ {
                stored(
                    c.field_leaves::<Date>(fields.date is Some, key),
                    |v: Seq<Date>|
                        MeasurementHeaderFieldsView { date: Some(v), ..fields },
                )
            } else if key == "Delta_X"@ {
                stored(
                    c.field_leaves::<Real>(fields.delta_x is Some, key),
                    |v: Seq<Seq<char>>|
                        MeasurementHeaderFieldsView { delta_x: Some(v), ..fields },
                )
            } else if key == "Notes"@ {
                stored(
                    c.field_option::<String>(fields.notes is Some, key),
                    |v: Option<Seq<char>>|
                        MeasurementHeaderFieldsView { notes: Some(v), ..fields },
                )
            } else if key == "Samples"@ {
                stored(
                    c.field_leaves::<usize>(fields.samples is Some, key),
                    |v: Seq<usize>|
                        MeasurementHeaderFieldsView { samples: Some(v), ..fields },
                )
            } else if key == "Test_Name"@ {
                stored(
                    c.field_option::<TestName>(fields.test_name is Some, key),
                    |v: Option<Seq<char>>|
                        MeasurementHeaderFieldsView { test_name: Some(v), ..fields },
                )
            } else if key == "Test_Number"@ {
                stored(
                    c.field_option::<TestNumbers>(fields.test_numbers is Some, key),
                    |v: Option<Seq<Seq<char>>>|
                        MeasurementHeaderFieldsView { test_numbers: Some(v), ..fields },
                )
            } else if key == "Test_Series"@ {
                stored(
                    c.field_option::<TestSeries>(fields.test_series is Some, key),
                    |v: Option<Seq<char>>|
                        MeasurementHeaderFieldsView { test_series: Some(v), ..fields },
                )
            } else if key == "Time"@ {
                stored(
                    c.field_leaves::<Time>(fields.time is Some, key),
                    |v: Seq<Time>|
                        MeasurementHeaderFieldsView { time: Some(v), ..fields },
                )
            } else if key == "UUT_M/N"@ {
                stored(
                    c.field_option::<ModelNumber>(fields.uut_mn is Some, key),
                    |v: Option<Seq<char>>|
                        MeasurementHeaderFieldsView { uut_mn: Some(v), ..fields },
                )
            } else if key == "UUT_Name"@ {
                stored(
                    c.field_option::<InstrumentName>(fields.uut_name is Some, key),
                    |v: Option<Seq<char>>|
                        MeasurementHeaderFieldsView { uut_name: Some(v), ..fields },
                )
            } else if key == "UUT_S/N"@ {
                stored(
                    c.field_option::<SerialNumber>(fields.uut_sn is Some, key),
                    |v: Option<Seq<char>>|
                        MeasurementHeaderFieldsView { uut_sn: Some(v), ..fields },
                )
            } else if key == "X0"@ {
                stored(
                    c.field_leaves::<Real>(fields.x0 is Some, key),
                    |v: Seq<Seq<char>>|
                        MeasurementHeaderFieldsView { x0: Some(v), ..fields },
                )
            } else if key == "X_Dimension"@ {
                stored(
                    c.field_option_leaves::<UnitType>(fields.x_dimension is Some, key),
                    |v: Option<Seq<UnitType>>|
                        MeasurementHeaderFieldsView { x_dimension: Some(v), ..fields },
                )
            } else if key == "X_Unit_Label"@ {
                stored(
                    c.field_option_leaves::<Unit>(fields.x_unit_label is Some, key),
                    |v: Option<Seq<Unit>>|
                        MeasurementHeaderFieldsView { x_unit_label: Some(v), ..fields },
                )
            } else if key == "Y_Dimension"@ {
                stored(
                    c.field_leaf::<UnitType>(fields.y_dimension is Some, key),
                    |v: UnitType|
                        MeasurementHeaderFieldsView { y_dimension: Some(v), ..fields },
                )
            } else if key == "Y_Unit_Label"@ {
                stored(
                    c.field_option_leaves::<Unit>(fields.y_unit_label is Some, key),
                    |v: Option<Seq<Unit>>|
                        MeasurementHeaderFieldsView { y_unit_label: Some(v), ..fields },
                )
            } else {
                c.fail(ErrorKindView::Deserialize(unknown_field_text(key)))
            },
        }
    }
}

impl Cursor {
    /// The rest of the fields of the header of a file, behind the `fields`
    /// that were decoded: entries, one on each line, up to the key that closes
    /// the block.
    pub open spec fn file_header_fields(self, fields: FileHeaderFieldsView) -> (
        Cursor,
        Result<FileHeaderFieldsView, ErrorView>,
    )
        decreases self.rest.len(),
    {
        let (c1, e) = self.within(self.cur.file_header_entry(fields));
        match e {
            Err(x) => (c1, Err(x)),
            Ok((true, f)) => (c1, Ok(f)),
            Ok((false, f)) => {
                let (c2, n) = c1.newline();
                match n {
                    Err(x) => (c2, Err(x)),
                    Ok(_) => c2.file_header_fields(f),
                }
            },
        }
    }

    /// The header of a file: its fields, then the check that none is missing,
    /// then the one separator behind the key that closes the block. The line
    /// of that key is not left, and a missing field is a failure on it.
    pub open spec fn file_header(self) -> (
        Cursor,
        Result<FileHeaderView, ErrorView>,
    ) {
        let (c1, r) = self.file_header_fields(FileHeaderFieldsView::empty());
        match r {
            Err(e) => (c1, Err(e)),
            Ok(fields) => match fields.finish() {
                Err(k) => c1.within(c1.cur.fail(k)),
                Ok(header) => {
                    let (c2, s) = c1.within(c1.cur.separators(1));
                    match s {
                        Err(e) => (c2, Err(e)),
                        Ok(_) => (c2, Ok(header)),
                    }
                },
            },
        }
    }

    /// The rest of the fields of the header of a segment, behind the `fields`
    /// that were decoded: entries, one on each line, up to the key that closes
    /// the block.
    pub open spec fn measurement_header_fields(self, fields: MeasurementHeaderFieldsView) -> (
        Cursor,
        Result<MeasurementHeaderFieldsView, ErrorView>,
    )
        decreases self.rest.len(),
    {
        let (c1, e) = self.within(self.cur.measurement_header_entry(fields));
        match e {
            Err(x) => (c1, Err(x)),
            Ok((true, f)) => (c1, Ok(f)),
            Ok((false, f)) => {
                let (c2, n) = c1.newline();
                match n {
                    Err(x) => (c2, Err(x)),
                    Ok(_) => c2.measurement_header_fields(f),
                }
            },
        }
    }

    /// The header of a segment: its fields, then the check that none is
    /// missing, then the one separator behind the key that closes the block.
    /// The line of that key is not left, and a missing field is a failure on
    /// it.
    pub open spec fn measurement_header(self) -> (
        Cursor,
        Result<MeasurementHeaderView, ErrorView>,
    ) {
        let (c1, r) = self.measurement_header_fields(MeasurementHeaderFieldsView::empty());
        match r {
            Err(e) => (c1, Err(e)),
            Ok(fields) => match fields.finish() {
                Err(k) => c1.within(c1.cur.fail(k)),
                Ok(header) => {
                    let (c2, s) = c1.within(c1.cur.separators(1));
                    match s {
                        Err(e) => (c2, Err(e)),
                        Ok(_) => (c2, Ok(header)),
                    }
                },
            },
        }
    }
}

impl Deserializer {
    /// Decodes one entry of the header of a file into `fields`, and tells
    /// whether it was the key that closes the block.
    pub fn file_header_entry(&mut self, fields: FileHeaderFields) -> (r: Result<
        (bool, FileHeaderFields),
        Error,
    >)
        ensures
            (final(self)@, outcome(r)) == old(self)@.within(
                old(self)@.cur.file_header_entry(fields.deep_view()),
            ),
    {
        let mut fields = fields;
        let key = self.parse_token()?;
        if is_text(&key, "***End_of_Header***") {
            Ok((true, fields))
        } else if is_text(&key, "Date") {
            let seen = fields.date.is_some();
            match self.parse_field_leaf::<Date>(seen, "Date") {
                Ok(v) => {
                    fields.date = Some(v);
                    Ok((false, fields))
                },
                Err(e) => Err(e),
            }
        } else if is_text(&key, "Description") {
            let seen = fields.description.is_some();
            match self.parse_field_option::<String>(seen, "Description") {
                Ok(v) => {
                    fields.description = Some(v);
                    Ok((false, fields))
                },
                Err(e) => Err(e),
            }
        } else if is_text(&key, "Decimal_Separator") {
            let seen = fields.decimal_separator.is_some();
            match self.parse_field_leaf::<DecimalSeparator>(seen, "Decimal_Separator") {
                Ok(v) => {
                    fields.decimal_separator = Some(v);
                    Ok((false, fields))
                },
                Err(e) => Err(e),
            }
        } else if is_text(&key, "Multi_Headings") {
            let seen = fields.multi_headings.is_some();
            match self.parse_field_bool(seen, "Multi_Headings") {
                Ok(v) => {
                    fields.multi_headings = Some(v);
                    Ok((false, fields))
                },
                Err(e) => Err(e),
            }
        } else if is_text(&key, "Operator") {
            let seen = fields.operator.is_some();
            match self.parse_field_option::<OperatorName>(seen, "Operator") {
                Ok(v) => {
                    fields.operator = Some(v);
                    Ok((false, fields))
                },
                Err(e) => Err(e),
            }
        } else if is_text(&key, "Project") {
            let seen = fields.project.is_some();
            match self.parse_field_option::<ProjectName>(seen, "Project") {
                Ok(v) => {
                    fields.project = Some(v);
                    Ok((false, fields))
                },
                Err(e) => Err(e),
            }
        } else if is_text(&key, "Reader_Version") {
            let seen = fields.reader_version.is_some();
            match self.parse_field_leaf::<Version>(seen, "Reader_Version") {
                Ok(v) => {
                    fields.reader_version = Some(v);
                    Ok((false, fields))
                },
                Err(e) => Err(e),
            }
        } else if is_text(&key, "Separator") {
            let seen = fields.separator.is_some();
            match self.parse_field_leaf::<Separator>(seen, "Separator") {
                Ok(v) => {
                    fields.separator = Some(v);
                    Ok((false, fields))
                },
                Err(e) => Err(e),
            }
        } else if is_text(&key, "Time") {
            let seen = fields.time.is_some();
            match self.parse_field_leaf::<Time>(seen, "Time") {
                Ok(v) => {
                    fields.time = Some(v);
                    Ok((false, fields))
                },
                Err(e) => Err(e),
            }
        } else if is_text(&key, "Time_Pref") {
            let seen = fields.time_pref.is_some();
            match self.parse_field_leaf::<TimePref>(seen, "Time_Pref") {
                Ok(v) => {
                    fields.time_pref = Some(v);
                    Ok((false, fields))
                },
                Err(e) => Err(e),
            }
        } else if is_text(&key, "Writer_Version") {
            let seen = fields.writer_version.is_some();
            match self.parse_field_leaf::<Version>(seen, "Writer_Version") {
                Ok(v) => {
                    fields.writer_version = Some(v);
                    Ok((false, fields))
                },
                Err(e) => Err(e),
            }
        } else if is_text(&key, "X_Columns") {
            let seen = fields.x_columns.is_some();
            match self.parse_field_leaf::<XColumns>(seen, "X_Columns") {
                Ok(v) => {
                    fields.x_columns = Some(v);
                    Ok((false, fields))
                },
                Err(e) => Err(e),
            }
        } else {
            let m = "unknown field `".to_owned().concat(key.as_str()).concat("`");
            self.line_error(ErrorKind::Deserialize(m))
        }
    }

    /// Decodes the header of a file.
    pub fn parse_file_header(&mut self) -> (r: Result<FileHeader, Error>)
        ensures
            (final(self)@, outcome(r)) == old(self)@.file_header(),
    {
        let mut fields = FileHeaderFields::new();
        loop
            invariant
                self@.file_header_fields(fields.deep_view()) == old(self)@.file_header_fields(
                    FileHeaderFieldsView::empty(),
                ),
            decreases self@.rest.len(),
        {
            let (done, next) = match self.file_header_entry(fields) {
                Ok(x) => x,
                Err(e) => {
                    return Err(e);
                },
            };
            fields = next;
            if done {
                let header = match fields.finish() {
                    Ok(h) => h,
                    Err(k) => {
                        return self.line_result(Err(Error::new(k)));
                    },
                };
                return match self.parse_separators(1) {
                    Ok(_) => Ok(header),
                    Err(e) => Err(e),
                };
            }
            match self.parse_newline() {
                Ok(_) => {},
                Err(e) => {
                    return Err(e);
                },
            }
        }
    }

    /// Decodes one entry of the header of a segment into `fields`, and tells
    /// whether it was the key that closes the block.
    pub fn measurement_header_entry(&mut self, fields: MeasurementHeaderFields) -> (r: Result<
        (bool, MeasurementHeaderFields),
        Error,
    >)
        ensures
            (final(self)@, outcome(r)) == old(self)@.within(
                old(self)@.cur.measurement_header_entry(fields.deep_view()),
            ),
    {
        let mut fields = fields;
        let key = self.parse_token()?;
        if is_text(&key, "***End_of_Header***") {
            Ok((true, fields))
        } else if is_text(&key, "Channels") {
            let seen = fields.channels.is_some();
            match self.parse_field_channels(seen, "Channels") {
                Ok(v) => {
                    fields.channels = Some(v);
                    Ok((false, fields))
                },
                Err(e) => Err(e),
            }
        } else if is_text(&key, "Date") {
            let seen = fields.date.is_some();
            match self.parse_field_leaves::<Date>(seen, "Date") {
                Ok(v) => {
                    fields.date = Some(v);
                    Ok((false, fields))
                },
                Err(e) => Err(e),
            }
        } else if is_text(&key, "Delta_X") {
            let seen = fields.delta_x.is_some();
            match self.parse_field_leaves::<Real>(seen, "Delta_X") {
                Ok(v) => {
                    fields.delta_x = Some(v);
                    Ok((false, fields))
                },
                Err(e) => Err(e),
            }
        } else if is_text(&key, "Notes") {
            let seen = fields.notes.is_some();
            match self.parse_field_option::<String>(seen, "Notes") {
                Ok(v) => {
                    fields.notes = Some(v);
                    Ok((false, fields))
                },
                Err(e) => Err(e),
            }
        } else if is_text(&key, "Samples") {
            let seen = fields.samples.is_some();
            match self.parse_field_leaves::<usize>(seen, "Samples") {
                Ok(v) => {
                    fields.samples = Some(v);
                    Ok((false, fields))
                },
                Err(e) => Err(e),
            }
        } else if is_text(&key, "Test_Name") {
            let seen = fields.test_name.is_some();
            match self.parse_field_option::<TestName>(seen, "Test_Name") {
                Ok(v) => {
                    fields.test_name = Some(v);
                    Ok((false, fields))
                },
                Err(e) => Err(e),
            }
        } else if is_text(&key, "Test_Number") {
            let seen = fields.test_numbers.is_some();
            match self.parse_field_option::<TestNumbers>(seen, "Test_Number") {
                Ok(v) => {
                    fields.test_numbers = Some(v);
                    Ok((false, fields))
                },
                Err(e) => Err(e),
            }
        } else if is_text(&key, "Test_Series") {
            let seen = fields.test_series.is_some();
            match self.parse_field_option::<TestSeries>(seen, "Test_Series") {
                Ok(v) => {
                    fields.test_series = Some(v);
                    Ok((false, fields))
                },
                Err(e) => Err(e),
            }
        } else if is_text(&key, "Time") {
            let seen = fields.time.is_some();
            match self.parse_field_leaves::<Time>(seen, "Time") {
                Ok(v) => {
                    fields.time = Some(v);
                    Ok((false, fields))
                },
                Err(e) => Err(e),
            }
        } else if is_text(&key, "UUT_M/N") {
            let seen = fields.uut_mn.is_some();
            match self.parse_field_option::<ModelNumber>(seen, "UUT_M/N") {
                Ok(v) => {
                    fields.uut_mn = Some(v);
                    Ok((false, fields))
                },
                Err(e) => Err(e),
            }
        } else if is_text(&key, "UUT_Name") {
            let seen = fields.uut_name.is_some();
            match self.parse_field_option::<InstrumentName>(seen, "UUT_Name") {
                Ok(v) => {
                    fields.uut_name = Some(v);
                    Ok((false, fields))
                },
                Err(e) => Err(e),
            }
        } else if is_text(&key, "UUT_S/N") {
            let seen = fields.uut_sn.is_some();
            match self.parse_field_option::<SerialNumber>(seen, "UUT_S/N") {
                Ok(v) => {
                    fields.uut_sn = Some(v);
                    Ok((false, fields))
                },
                Err(e) => Err(e),
            }
        } else if is_text(&key, "X0") {
            let seen = fields.x0.is_some();
            match self.parse_field_leaves::<Real>(seen, "X0") {
                Ok(v) => {
                    fields.x0 = Some(v);
                    Ok((false, fields))
                },
                Err(e) => Err(e),
            }
        } else if is_text(&key, "X_Dimension") {
            let seen = fields.x_dimension.is_some();
            match self.parse_field_option_leaves::<UnitType>(seen, "X_Dimension") {
                Ok(v) => {
                    fields.x_dimension = Some(v);
                    Ok((false, fields))
                },
                Err(e) => Err(e),
            }
        } else if is_text(&key, "X_Unit_Label") {
            let seen = fields.x_unit_label.is_some();
            match self.parse_field_option_leaves::<Unit>(seen, "X_Unit_Label") {
                Ok(v) => {
                    fields.x_unit_label = Some(v);
                    Ok((false, fields))
                },
                Err(e) => Err(e),
            }
        } else if is_text(&key, "Y_Dimension") {
            let seen = fields.y_dimension.is_some();
            match self.parse_field_leaf::<UnitType>(seen, "Y_Dimension") {
                Ok(v) => {
                    fields.y_dimension = Some(v);
                    Ok((false, fields))
                },
                Err(e) => Err(e),
            }
        } else if is_text(&key, "Y_Unit_Label") {
            let seen = fields.y_unit_label.is_some();
            match self.parse_field_option_leaves::<Unit>(seen, "Y_Unit_Label") {
                Ok(v) => {
                    fields.y_unit_label = Some(v);
                    Ok((false, fields))
                },
                Err(e) => Err(e),
            }
        } else {
            let m = "unknown field `".to_owned().concat(key.as_str()).concat("`");
            self.line_error(ErrorKind::Deserialize(m))
        }
    }

    /// Decodes the header of a segment.
    pub fn parse_measurement_header(&mut self) -> (r: Result<MeasurementHeader, Error>)
        ensures
            (final(self)@, outcome(r)) == old(self)@.measurement_header(),
    {
        let mut fields = MeasurementHeaderFields::new();
        loop
            invariant
                self@.measurement_header_fields(fields.deep_view()) == old(self)@.measurement_header_fields(
                    MeasurementHeaderFieldsView::empty(),
                ),
            decreases self@.rest.len(),
        {
            let (done, next) = match self.measurement_header_entry(fields) {
                Ok(x) => x,
                Err(e) => {
                    return Err(e);
                },
            };
            fields = next;
            if done {
                let header = match fields.finish() {
                    Ok(h) => h,
                    Err(k) => {
                        return self.line_result(Err(Error::new(k)));
                    },
                };
                return match self.parse_separators(1) {
                    Ok(_) => Ok(header),
                    Err(e) => Err(e),
                };
            }
            match self.parse_newline() {
                Ok(_) => {},
                Err(e) => {
                    return Err(e);
                },
            }
        }
    }
}

/// An entry of the header of a file stays on its line.
pub proof fn lemma_file_header_entry_stays(c: LineCursor, fields: FileHeaderFieldsView)
    ensures
        stays_on_line(c, c.file_header_entry(fields)),
{
    lemma_tokens_stay(c);
    let (c1, k) = c.token();
    if let Ok(key) = k {
        if key == sentinel() {
        } else if key == "Date"@ {
            lemma_field_stays::<Date>(c1, fields.date is Some, key);
            lemma_stored_stays::<Date, FileHeaderFieldsView>(
                c,
                c1,
                c1.field_leaf::<Date>(fields.date is Some, key),
            );
        } else if key == "Description"@ {
            lemma_field_stays::<String>(c1, fields.description is Some, key);
            lemma_stored_stays::<Option<Seq<char>>, FileHeaderFieldsView>(
                c,
                c1,
                c1.field_option::<String>(fields.description is Some, key),
            );
        } else if key == "Decimal_Separator"@ {
            lemma_field_stays::<DecimalSeparator>(c1, fields.decimal_separator is Some, key);
            lemma_stored_stays::<DecimalSeparator, FileHeaderFieldsView>(
                c,
                c1,
                c1.field_leaf::<DecimalSeparator>(fields.decimal_separator is Some, key),
            );
        } else if key == "Multi_Headings"@ {
            lemma_field_stays::<String>(c1, fields.multi_headings is Some, key);
            lemma_stored_stays::<bool, FileHeaderFieldsView>(
                c,
                c1,
                c1.field_bool(fields.multi_headings is Some, key),
            );
        } else if key == "Operator"@ {
            lemma_field_stays::<OperatorName>(c1, fields.operator is Some, key);
            lemma_stored_stays::<Option<Seq<char>>, FileHeaderFieldsView>(
                c,
                c1,
                c1.field_option::<OperatorName>(fields.operator is Some, key),
            );
        } else if key == "Project"@ {
            lemma_field_stays::<ProjectName>(c1, fields.project is Some, key);
            lemma_stored_stays::<Option<Seq<char>>, FileHeaderFieldsView>(
                c,
                c1,
                c1.field_option::<ProjectName>(fields.project is Some, key),
            );
        } else if key == "Reader_Version"@ {
            lemma_field_stays::<Version>(c1, fields.reader_version is Some, key);
            lemma_stored_stays::<VersionView, FileHeaderFieldsView>(
                c,
                c1,
                c1.field_leaf::<Version>(fields.reader_version is Some, key),
            );
        } else if key == "Separator"@ {
            lemma_field_stays::<Separator>(c1, fields.separator is Some, key);
            lemma_stored_stays::<Separator, FileHeaderFieldsView>(
                c,
                c1,
                c1.field_leaf::<Separator>(fields.separator is Some, key),
            );
        } else if key == "Time"@ {
            lemma_field_stays::<Time>(c1, fields.time is Some, key);
            lemma_stored_stays::<Time, FileHeaderFieldsView>(
                c,
                c1,
                c1.field_leaf::<Time>(fields.time is Some, key),
            );
        } else if key == "Time_Pref"@ {
            lemma_field_stays::<TimePref>(c1, fields.time_pref is Some, key);
            lemma_stored_stays::<TimePref, FileHeaderFieldsView>(
                c,
                c1,
                c1.field_leaf::<TimePref>(fields.time_pref is Some, key),
            );
        } else if key == "Writer_Version"@ {
            lemma_field_stays::<Version>(c1, fields.writer_version is Some, key);
            lemma_stored_stays::<VersionView, FileHeaderFieldsView>(
                c,
                c1,
                c1.field_leaf::<Version>(fields.writer_version is Some, key),
            );
        } else if key == "X_Columns"@ {
            lemma_field_stays::<XColumns>(c1, fields.x_columns is Some, key);
            lemma_stored_stays::<XColumns, FileHeaderFieldsView>(
                c,
                c1,
                c1.field_leaf::<XColumns>(fields.x_columns is Some, key),
            );
        }
    }
}

/// An entry of the header of a segment stays on its line.
pub proof fn lemma_measurement_header_entry_stays(c: LineCursor, fields: MeasurementHeaderFieldsView)
    ensures
        stays_on_line(c, c.measurement_header_entry(fields)),
{
    lemma_tokens_stay(c);
    let (c1, k) = c.token();
    if let Ok(key) = k {
        if key == sentinel() {
        } else if key == "Channels"@ {
            lemma_field_stays::<String>(c1, fields.channels is Some, key);
            lemma_stored_stays::<(usize, Seq<Seq<char>>), MeasurementHeaderFieldsView>(
                c,
                c1,
                c1.field_channels(fields.channels is Some, key),
            );
        } else if key == "Date"@ {
            lemma_field_stays::<Date>(c1, fields.date is Some, key);
            lemma_stored_stays::<Seq<Date>, MeasurementHeaderFieldsView>(
                c,
                c1,
                c1.field_leaves::<Date>(fields.date is Some, key),
            );
        } else if key == "Delta_X"@ {
            lemma_field_stays::<Real>(c1, fields.delta_x is Some, key);
            lemma_stored_stays::<Seq<Seq<char>>, MeasurementHeaderFieldsView>(
                c,
                c1,
                c1.field_leaves::<Real>(fields.delta_x is Some, key),
            );
        } else if key == "Notes"@ {
            lemma_field_stays::<String>(c1, fields.notes is Some, key);
            lemma_stored_stays::<Option<Seq<char>>, MeasurementHeaderFieldsView>(
                c,
                c1,
                c1.field_option::<String>(fields.notes is Some, key),
            );
        } else if key == "Samples"@ {
            lemma_field_stays::<usize>(c1, fields.samples is Some, key);
            lemma_stored_stays::<Seq<usize>, MeasurementHeaderFieldsView>(
                c,
                c1,
                c1.field_leaves::<usize>(fields.samples is Some, key),
            );
        } else if key == "Test_Name"@ {
            lemma_field_stays::<TestName>(c1, fields.test_name is Some, key);
            lemma_stored_stays::<Option<Seq<char>>, MeasurementHeaderFieldsView>(
                c,
                c1,
                c1.field_option::<TestName>(fields.test_name is Some, key),
            );
        } else if key == "Test_Number"@ {
            lemma_field_stays::<TestNumbers>(c1, fields.test_numbers is Some, key);
            lemma_stored_stays::<Option<Seq<Seq<char>>>, MeasurementHeaderFieldsView>(
                c,
                c1,
                c1.field_option::<TestNumbers>(fields.test_numbers is Some, key),
            );
        } else if key == "Test_Series"@ {
            lemma_field_stays::<TestSeries>(c1, fields.test_series is Some, key);
            lemma_stored_stays::<Option<Seq<char>>, MeasurementHeaderFieldsView>(
                c,
                c1,
                c1.field_option::<TestSeries>(fields.test_series is Some, key),
            );
        } else if key == "Time"@ {
            lemma_field_stays::<Time>(c1, fields.time is Some, key);
            lemma_stored_stays::<Seq<Time>, MeasurementHeaderFieldsView>(
                c,
                c1,
                c1.field_leaves::<Time>(fields.time is Some, key),
            );
        } else if key == "UUT_M/N"@ {
            lemma_field_stays::<ModelNumber>(c1, fields.uut_mn is Some, key);
            lemma_stored_stays::<Option<Seq<char>>, MeasurementHeaderFieldsView>(
                c,
                c1,
                c1.field_option::<ModelNumber>(fields.uut_mn is Some, key),
            );
        } else if key == "UUT_Name"@ {
            lemma_field_stays::<InstrumentName>(c1, fields.uut_name is Some, key);
            lemma_stored_stays::<Option<Seq<char>>, MeasurementHeaderFieldsView>(
                c,
                c1,
                c1.field_option::<InstrumentName>(fields.uut_name is Some, key),
            );
        } else if key == "UUT_S/N"@ {
            lemma_field_stays::<SerialNumber>(c1, fields.uut_sn is Some, key);
            lemma_stored_stays::<Option<Seq<char>>, MeasurementHeaderFieldsView>(
                c,
                c1,
                c1.field_option::<SerialNumber>(fields.uut_sn is Some, key),
            );
        } else if key == "X0"@ {
            lemma_field_stays::<Real>(c1, fields.x0 is Some, key);
            lemma_stored_stays::<Seq<Seq<char>>, MeasurementHeaderFieldsView>(
                c,
                c1,
                c1.field_leaves::<Real>(fields.x0 is Some, key),
            );
        } else if key == "X_Dimension"@ {
            lemma_field_stays::<UnitType>(c1, fields.x_dimension is Some, key);
            lemma_stored_stays::<Option<Seq<UnitType>>, MeasurementHeaderFieldsView>(
                c,
                c1,
                c1.field_option_leaves::<UnitType>(fields.x_dimension is Some, key),
            );
        } else if key == "X_Unit_Label"@ {
            lemma_field_stays::<Unit>(c1, fields.x_unit_label is Some, key);
            lemma_stored_stays::<Option<Seq<Unit>>, MeasurementHeaderFieldsView>(
                c,
                c1,
                c1.field_option_leaves::<Unit>(fields.x_unit_label is Some, key),
            );
        } else if key == "Y_Dimension"@ {
            lemma_field_stays::<UnitType>(c1, fields.y_dimension is Some, key);
            lemma_stored_stays::<UnitType, MeasurementHeaderFieldsView>(
                c,
                c1,
                c1.field_leaf::<UnitType>(fields.y_dimension is Some, key),
            );
        } else if key == "Y_Unit_Label"@ {
            lemma_field_stays::<Unit>(c1, fields.y_unit_label is Some, key);
            lemma_stored_stays::<Option<Seq<Unit>>, MeasurementHeaderFieldsView>(
                c,
                c1,
                c1.field_option_leaves::<Unit>(fields.y_unit_label is Some, key),
            );
        }
    }
}

} // verus!

use crate::errors::{outcome, Error, ErrorKind, ErrorKindView, ErrorView};
use crate::text::{
    chars_of, count_from, decimal_string, decimal_text, find_token_end, is_text, lemma_token_end,
    occurrences, push_char, text_of, token_end,
};
use chrono::{Datelike, Timelike};
use vstd::prelude::*;
use vstd::string::StringExecFns;

verus! {

/// Character used to separate each field in the file.
#[derive(Clone, Copy, Debug, PartialEq, Eq)]
pub enum Separator {
    /// Comma separator (ASCII 0x2C)
    Comma,
    /// Tab separator (ASCII 0x09)
    Tab,
}

impl DeepView for Separator {
    type V = Separator;

    open spec fn deep_view(&self) -> Separator {
        *self
    }
}

impl Separator {
    /// The separator that a character stands for, if it stands for one.
    pub open spec fn of_char(c: char) -> Option<Separator> {
        if c == ',' {
            Some(Separator::Comma)
        } else if c == '\t' {
            Some(Separator::Tab)
        } else {
            None
        }
    }

    /// The character of the separator.
    pub open spec fn spec_to_char(self) -> char {
        match self {
            Separator::Comma => ',',
            Separator::Tab => '\t',
        }
    }

    /// The separator that `i_char` declares: a comma or a tab. Any other
    /// character is rejected as `InvalidSeparator`, without line context.
    pub fn try_from(i_char: char) -> (r: Result<Separator, Error>)
        ensures
            outcome(r) == match Separator::of_char(i_char) {
                Some(s) => Ok::<Separator, ErrorView>(s),
                None => Err(ErrorView::bare(ErrorKindView::InvalidSeparator(i_char))),
            },
    {
        if i_char == ',' {
            Ok(Separator::Comma)
        } else if i_char == '\t' {
            Ok(Separator::Tab)
        } else {
            Err(Error::new(ErrorKind::InvalidSeparator(i_char)))
        }
    }

    /// The character of the separator.
    #[verifier::when_used_as_spec(spec_to_char)]
    pub fn to_char(self) -> (c: char)
        ensures
            c == self.spec_to_char(),
    {
        match self {
            Separator::Comma => ',',
            Separator::Tab => '\t',
        }
    }
}

/// A value that is decoded from one token.
pub trait Leaf: DeepView + Sized {
    /// What a token decodes to: the value, or the reason why it is none.
    spec fn of_text(text: Seq<char>) -> Result<Self::V, ErrorKindView>;

    /// Decodes a token.
    fn from_token(token: String) -> (r: Result<Self, ErrorKind>)
        ensures
            outcome(r) == Self::of_text(token@),
    ;
}

impl Leaf for String {
    /// Text is taken as it stands.
    open spec fn of_text(text: Seq<char>) -> Result<Seq<char>, ErrorKindView> {
        Ok(text)
    }

    fn from_token(token: String) -> (r: Result<String, ErrorKind>) {
        Ok(token)
    }
}

/// Whether a character is a decimal digit.
pub open spec fn is_digit(c: char) -> bool {
    '0' <= c <= '9'
}

/// Whether every character of a text is a decimal digit.
pub open spec fn all_digits(text: Seq<char>) -> bool {
    forall|i: int| 0 <= i < text.len() ==> is_digit(#[trigger] text[i])
}

/// The number that a text of decimal digits denotes.
pub open spec fn decimal_value(digits: Seq<char>) -> nat
    decreases digits.len(),
{
    if digits.len() == 0 {
        0
    } else {
        10 * decimal_value(digits.drop_last()) + (digits.last() as nat - '0' as nat) as nat
    }
}

/// The number that a text denotes as an unsigned decimal integer: one or
/// more decimal digits, with an optional `+` in front. Other texts denote
/// none.
pub open spec fn unsigned_of_text(text: Seq<char>) -> Option<nat> {
    let digits = if text.len() > 0 && text[0] == '+' {
        text.drop_first()
    } else {
        text
    };
    if digits.len() > 0 && all_digits(digits) {
        Some(decimal_value(digits))
    } else {
        None
    }
}

/// The message with which the integer parser rejects a text.
pub uninterp spec fn integer_error_text(text: Seq<char>) -> Seq<char>;

/// Parses an unsigned integer with `num::Num::from_str_radix`, which for
/// `usize` is the parser of the standard library. In base 10 it accepts
/// decimal digits with an optional `+` in front, and rejects the empty text,
/// a lone sign, any other character, and a number that `usize` cannot hold.
/// An error is handed out as its message.
#[verifier::external_body]
fn usize_from_text(s: &str, radix: u32) -> (r: Result<usize, String>)
    requires
        radix == 10,
    ensures
        match r {
            Ok(v) => unsigned_of_text(s@) == Some(v as nat),
            Err(m) => m@ == integer_error_text(s@) && match unsigned_of_text(s@) {
                Some(n) => n > usize::MAX,
                None => true,
            },
        },
{
    match <usize as num::Num>::from_str_radix(s, radix) {
        Ok(v) => Ok(v),
        Err(e) => Err(e.to_string()),
    }
}

impl Leaf for usize {
    /// An unsigned decimal integer that fits the machine word.
    open spec fn of_text(text: Seq<char>) -> Result<usize, ErrorKindView> {
        match unsigned_of_text(text) {
            Some(n) if n <= usize::MAX => Ok(n as usize),
            _ => Err(ErrorKindView::ParseIntError(integer_error_text(text))),
        }
    }

    fn from_token(token: String) -> (r: Result<usize, ErrorKind>) {
        match usize_from_text(token.as_str(), 10) {
            Ok(v) => Ok(v),
            Err(m) => Err(ErrorKind::ParseIntError(m)),
        }
    }
}

/// The message for a token that names no variant of an enumeration;
/// `expected` lists the names that it has.
pub open spec fn unknown_variant_text(found: Seq<char>, expected: Seq<char>) -> Seq<char> {
    "unknown variant `"@ + found + "`, expected "@ + expected
}

/// The error for a token that names no variant of an enumeration.
fn unknown_variant(found: &String, expected: &str) -> (e: ErrorKind)
    ensures
        e.deep_view() == ErrorKindView::Deserialize(unknown_variant_text(found@, expected@)),
{
    let m = "unknown variant `".to_owned().concat(found.as_str()).concat("`, expected ").concat(
        expected,
    );
    ErrorKind::Deserialize(m)
}

impl Leaf for Separator {
    /// A variant is written as its name: `Comma`, `Tab`.
    open spec fn of_text(text: Seq<char>) -> Result<Separator, ErrorKindView> {
        if text == "Comma"@ {
            Ok(Separator::Comma)
        } else if text == "Tab"@ {
            Ok(Separator::Tab)
        } else {
            Err(ErrorKindView::Deserialize(unknown_variant_text(text, "`Comma` or `Tab`"@)))
        }
    }

    fn from_token(token: String) -> (r: Result<Separator, ErrorKind>) {
        if is_text(&token, "Comma") {
            Ok(Separator::Comma)
        } else if is_text(&token, "Tab") {
            Ok(Separator::Tab)
        } else {
            Err(unknown_variant(&token, "`Comma` or `Tab`"))
        }
    }
}

impl Default for Separator {
    fn default() -> (d: Separator)
        ensures
            d == Separator::Tab,
    {
        Separator::Tab
    }
}

/// Symbol that separates the integral part of a number from the fractional
/// part.
#[derive(Clone, Copy, Debug, PartialEq, Eq)]
pub enum DecimalSeparator {
    /// Dot character (ASCII 0x2E)
    Dot,
    /// Comma character (ASCII 0x2C)
    Comma,
}

impl DeepView for DecimalSeparator {
    type V = DecimalSeparator;

    open spec fn deep_view(&self) -> DecimalSeparator {
        *self
    }
}

impl Leaf for DecimalSeparator {
    /// A variant is written as its name: `.`, `,`.
    open spec fn of_text(text: Seq<char>) -> Result<DecimalSeparator, ErrorKindView> {
        if text == "."@ {
            Ok(DecimalSeparator::Dot)
        } else if text == ","@ {
            Ok(DecimalSeparator::Comma)
        } else {
            Err(ErrorKindView::Deserialize(unknown_variant_text(text, "`.` or `,`"@)))
        }
    }

    fn from_token(token: String) -> (r: Result<DecimalSeparator, ErrorKind>) {
        if is_text(&token, ".") {
            Ok(DecimalSeparator::Dot)
        } else if is_text(&token, ",") {
            Ok(DecimalSeparator::Comma)
        } else {
            Err(unknown_variant(&token, "`.` or `,`"))
        }
    }
}

/// Format of axis values: absolute or relative.
#[derive(Clone, Copy, Debug, PartialEq, Eq)]
pub enum TimePref {
    /// x-value is number of seconds since midnight, January 1, 1904 GMT
    Absolute,
    /// x-value is number of seconds since the date and time stamps
    Relative,
}

impl DeepView for TimePref {
    type V = TimePref;

    open spec fn deep_view(&self) -> TimePref {
        *self
    }
}

impl Leaf for TimePref {
    /// A variant is written as its name: `Absolute`, `Relative`.
    open spec fn of_text(text: Seq<char>) -> Result<TimePref, ErrorKindView> {
        if text == "Absolute"@ {
            Ok(TimePref::Absolute)
        } else if text == "Relative"@ {
            Ok(TimePref::Relative)
        } else {
            Err(ErrorKindView::Deserialize(unknown_variant_text(text, "`Absolute` or `Relative`"@)))
        }
    }

    fn from_token(token: String) -> (r: Result<TimePref, ErrorKind>) {
        if is_text(&token, "Absolute") {
            Ok(TimePref::Absolute)
        } else if is_text(&token, "Relative") {
            Ok(TimePref::Relative)
        } else {
            Err(unknown_variant(&token, "`Absolute` or `Relative`"))
        }
    }
}

impl Default for TimePref {
    fn default() -> (d: TimePref)
        ensures
            d == TimePref::Relative,
    {
        TimePref::Relative
    }
}

/// Label for an axis.
#[derive(Clone, Copy, Debug, PartialEq, Eq)]
pub enum Unit {
    /// Milliamps
    Milliamps,
    /// Volts
    Volts,
}

impl DeepView for Unit {
    type V = Unit;

    open spec fn deep_view(&self) -> Unit {
        *self
    }
}

impl Leaf for Unit {
    /// A variant is written as its name: `Milliamps`, `Volts`.
    open spec fn of_text(text: Seq<char>) -> Result<Unit, ErrorKindView> {
        if text == "Milliamps"@ {
            Ok(Unit::Milliamps)
        } else if text == "Volts"@ {
            Ok(Unit::Volts)
        } else {
            Err(ErrorKindView::Deserialize(unknown_variant_text(text, "`Milliamps` or `Volts`"@)))
        }
    }

    fn from_token(token: String) -> (r: Result<Unit, ErrorKind>) {
        if is_text(&token, "Milliamps") {
            Ok(Unit::Milliamps)
        } else if is_text(&token, "Volts") {
            Ok(Unit::Volts)
        } else {
            Err(unknown_variant(&token, "`Milliamps` or `Volts`"))
        }
    }
}

/// Specifies the unit type of an axis.
#[derive(Clone, Copy, Debug, PartialEq, Eq)]
pub enum UnitType {
    /// Electric potential
    ElectricPotential,
    /// Time (seconds)
    Time,
}

impl DeepView for UnitType {
    type V = UnitType;

    open spec fn deep_view(&self) -> UnitType {
        *self
    }
}

impl Leaf for UnitType {
    /// A variant is written as its name: `Electric_Potential`, `Time`.
    open spec fn of_text(text: Seq<char>) -> Result<UnitType, ErrorKindView> {
        if text == "Electric_Potential"@ {
            Ok(UnitType::ElectricPotential)
        } else if text == "Time"@ {
            Ok(UnitType::Time)
        } else {
            Err(
                ErrorKindView::Deserialize(
                    unknown_variant_text(text, "`Electric_Potential` or `Time`"@),
                ),
            )
        }
    }

    fn from_token(token: String) -> (r: Result<UnitType, ErrorKind>) {
        if is_text(&token, "Electric_Potential") {
            Ok(UnitType::ElectricPotential)
        } else if is_text(&token, "Time") {
            Ok(UnitType::Time)
        } else {
            Err(unknown_variant(&token, "`Electric_Potential` or `Time`"))
        }
    }
}

impl Default for UnitType {
    fn default() -> (d: UnitType)
        ensures
            d == UnitType::ElectricPotential,
    {
        UnitType::ElectricPotential
    }
}

/// Specifies which x-values are saved.
#[derive(Clone, Copy, Debug, PartialEq, Eq)]
pub enum XColumns {
    /// Save no x-values: the first data column is blank.
    No,
    /// Saves one column of x-values.
    One,
    /// Saves a column of x data for every column of y data.
    Multi,
}

impl DeepView for XColumns {
    type V = XColumns;

    open spec fn deep_view(&self) -> XColumns {
        *self
    }
}

impl Leaf for XColumns {
    /// A variant is written as its name: `No`, `One`, `Multi`.
    open spec fn of_text(text: Seq<char>) -> Result<XColumns, ErrorKindView> {
        if text == "No"@ {
            Ok(XColumns::No)
        } else if text == "One"@ {
            Ok(XColumns::One)
        } else if text == "Multi"@ {
            Ok(XColumns::Multi)
        } else {
            Err(
                ErrorKindView::Deserialize(
                    unknown_variant_text(text, "one of `No`, `One`, `Multi`"@),
                ),
            )
        }
    }

    fn from_token(token: String) -> (r: Result<XColumns, ErrorKind>) {
        if is_text(&token, "No") {
            Ok(XColumns::No)
        } else if is_text(&token, "One") {
            Ok(XColumns::One)
        } else if is_text(&token, "Multi") {
            Ok(XColumns::Multi)
        } else {
            Err(unknown_variant(&token, "one of `No`, `One`, `Multi`"))
        }
    }
}

impl Default for XColumns {
    fn default() -> (d: XColumns)
        ensures
            d == XColumns::One,
    {
        XColumns::One
    }
}

/// Channel name
#[derive(Clone, Debug, PartialEq, Eq)]
pub struct ChannelName(pub String);

impl DeepView for ChannelName {
    type V = Seq<char>;

    open spec fn deep_view(&self) -> Seq<char> {
        self.0@
    }
}

impl Leaf for ChannelName {
    /// The text as it stands.
    open spec fn of_text(text: Seq<char>) -> Result<Seq<char>, ErrorKindView> {
        Ok(text)
    }

    fn from_token(token: String) -> (r: Result<ChannelName, ErrorKind>) {
        Ok(ChannelName(token))
    }
}

/// Name or instrument class of the unit under test
#[derive(Clone, Debug, PartialEq, Eq)]
pub struct InstrumentName(pub String);

impl DeepView for InstrumentName {
    type V = Seq<char>;

    open spec fn deep_view(&self) -> Seq<char> {
        self.0@
    }
}

impl Leaf for InstrumentName {
    /// The text as it stands.
    open spec fn of_text(text: Seq<char>) -> Result<Seq<char>, ErrorKindView> {
        Ok(text)
    }

    fn from_token(token: String) -> (r: Result<InstrumentName, ErrorKind>) {
        Ok(InstrumentName(token))
    }
}

/// Model number of a unit under test
#[derive(Clone, Debug, PartialEq, Eq)]
pub struct ModelNumber(pub String);

impl DeepView for ModelNumber {
    type V = Seq<char>;

    open spec fn deep_view(&self) -> Seq<char> {
        self.0@
    }
}

impl Leaf for ModelNumber {
    /// The text as it stands.
    open spec fn of_text(text: Seq<char>) -> Result<Seq<char>, ErrorKindView> {
        Ok(text)
    }

    fn from_token(token: String) -> (r: Result<ModelNumber, ErrorKind>) {
        Ok(ModelNumber(token))
    }
}

/// Serial number of the unit under test
#[derive(Clone, Debug, PartialEq, Eq)]
pub struct SerialNumber(pub String);

impl DeepView for SerialNumber {
    type V = Seq<char>;

    open spec fn deep_view(&self) -> Seq<char> {
        self.0@
    }
}

impl Leaf for SerialNumber {
    /// The text as it stands.
    open spec fn of_text(text: Seq<char>) -> Result<Seq<char>, ErrorKindView> {
        Ok(text)
    }

    fn from_token(token: String) -> (r: Result<SerialNumber, ErrorKind>) {
        Ok(SerialNumber(token))
    }
}

/// Name of the operator who collected the data
#[derive(Clone, Debug, PartialEq, Eq)]
pub struct OperatorName(pub String);

impl DeepView for OperatorName {
    type V = Seq<char>;

    open spec fn deep_view(&self) -> Seq<char> {
        self.0@
    }
}

impl Leaf for OperatorName {
    /// The text as it stands.
    open spec fn of_text(text: Seq<char>) -> Result<Seq<char>, ErrorKindView> {
        Ok(text)
    }

    fn from_token(token: String) -> (r: Result<OperatorName, ErrorKind>) {
        Ok(OperatorName(token))
    }
}

/// Name of the project that data was for
#[derive(Clone, Debug, PartialEq, Eq)]
pub struct ProjectName(pub String);

impl DeepView for ProjectName {
    type V = Seq<char>;

    open spec fn deep_view(&self) -> Seq<char> {
        self.0@
    }
}

impl Leaf for ProjectName {
    /// The text as it stands.
    open spec fn of_text(text: Seq<char>) -> Result<Seq<char>, ErrorKindView> {
        Ok(text)
    }

    fn from_token(token: String) -> (r: Result<ProjectName, ErrorKind>) {
        Ok(ProjectName(token))
    }
}

/// Name of a test
#[derive(Clone, Debug, PartialEq, Eq)]
pub struct TestName(pub String);

impl DeepView for TestName {
    type V = Seq<char>;

    open spec fn deep_view(&self) -> Seq<char> {
        self.0@
    }
}

impl Leaf for TestName {
    /// The text as it stands.
    open spec fn of_text(text: Seq<char>) -> Result<Seq<char>, ErrorKindView> {
        Ok(text)
    }

    fn from_token(token: String) -> (r: Result<TestName, ErrorKind>) {
        Ok(TestName(token))
    }
}

/// Test number from a series of tests
#[derive(Clone, Debug, PartialEq, Eq)]
pub struct TestNumber(pub String);

impl DeepView for TestNumber {
    type V = Seq<char>;

    open spec fn deep_view(&self) -> Seq<char> {
        self.0@
    }
}

impl Leaf for TestNumber {
    /// The text as it stands.
    open spec fn of_text(text: Seq<char>) -> Result<Seq<char>, ErrorKindView> {
        Ok(text)
    }

    fn from_token(token: String) -> (r: Result<TestNumber, ErrorKind>) {
        Ok(TestNumber(token))
    }
}

/// Series of a test
#[derive(Clone, Debug, PartialEq, Eq)]
pub struct TestSeries(pub String);

impl DeepView for TestSeries {
    type V = Seq<char>;

    open spec fn deep_view(&self) -> Seq<char> {
        self.0@
    }
}

impl Leaf for TestSeries {
    /// The text as it stands.
    open spec fn of_text(text: Seq<char>) -> Result<Seq<char>, ErrorKindView> {
        Ok(text)
    }

    fn from_token(token: String) -> (r: Result<TestSeries, ErrorKind>) {
        Ok(TestSeries(token))
    }
}

/// A calendar date without a time zone.
#[derive(Clone, Copy, Debug, PartialEq, Eq)]
pub struct Date {
    /// The year of the calendar.
    pub year: i32,
    /// The month, from 1.
    pub month: u32,
    /// The day of the month, from 1.
    pub day: u32,
}

impl DeepView for Date {
    type V = Date;

    open spec fn deep_view(&self) -> Date {
        *self
    }
}

/// What the date parser makes of a text under a format: year, month and day,
/// or the message of its error.
pub uninterp spec fn date_of_text(text: Seq<char>, format: Seq<char>) -> Result<
    (i32, u32, u32),
    Seq<char>,
>;

/// Parses a date with `chrono::NaiveDate::parse_from_str` and reads year,
/// month and day off the result with the methods of `chrono::Datelike`. An
/// error is handed out as its message. The outcome depends on the text and
/// the format alone.
#[verifier::external_body]
fn date_from_text(s: &str, format: &str) -> (r: Result<Date, String>)
    ensures
        match r {
            Ok(d) => date_of_text(s@, format@) == Ok::<(i32, u32, u32), Seq<char>>(
                (d.year, d.month, d.day),
            ),
            Err(m) => date_of_text(s@, format@) == Err::<(i32, u32, u32), Seq<char>>(m@),
        },
{
    match chrono::NaiveDate::parse_from_str(s, format) {
        Ok(d) => Ok(Date { year: d.year(), month: d.month(), day: d.day() }),
        Err(e) => Err(e.to_string()),
    }
}

impl Date {
    /// The format of a date: year, month and day with slashes between them.
    pub open spec fn format() -> Seq<char> {
        "%Y/%m/%d"@
    }

    /// The date that a text of the form `YYYY/MM/DD` denotes, or the message
    /// with which the date parser rejects it.
    pub fn from_str(s: &str) -> (r: Result<Date, String>)
        ensures
            match r {
                Ok(d) => date_of_text(s@, Date::format()) == Ok::<(i32, u32, u32), Seq<char>>(
                    (d.year, d.month, d.day),
                ),
                Err(m) => date_of_text(s@, Date::format()) == Err::<(i32, u32, u32), Seq<char>>(
                    m@,
                ),
            },
    {
        date_from_text(s, "%Y/%m/%d")
    }
}

impl Leaf for Date {
    /// A date of the form `YYYY/MM/DD`.
    open spec fn of_text(text: Seq<char>) -> Result<Date, ErrorKindView> {
        match date_of_text(text, Date::format()) {
            Ok((year, month, day)) => Ok(Date { year, month, day }),
            Err(m) => Err(ErrorKindView::Deserialize(m)),
        }
    }

    fn from_token(token: String) -> (r: Result<Date, ErrorKind>) {
        match Date::from_str(token.as_str()) {
            Ok(d) => Ok(d),
            Err(m) => Err(ErrorKind::Deserialize(m)),
        }
    }
}

/// A time of day without a time zone.
#[derive(Clone, Copy, Debug, PartialEq, Eq)]
pub struct Time {
    /// The hour of the day.
    pub hour: u32,
    /// The minute of the hour.
    pub minute: u32,
    /// The second of the minute.
    pub second: u32,
    /// The nanoseconds behind the whole second.
    pub nanosecond: u32,
}

impl DeepView for Time {
    type V = Time;

    open spec fn deep_view(&self) -> Time {
        *self
    }
}

/// What the time parser makes of a text under a format: hour, minute, second
/// and nanosecond, or the message of its error.
pub uninterp spec fn time_of_text(text: Seq<char>, format: Seq<char>) -> Result<
    (u32, u32, u32, u32),
    Seq<char>,
>;

/// Parses a time of day with `chrono::NaiveTime::parse_from_str` and reads
/// hour, minute, second and nanosecond off the result with the methods of
/// `chrono::Timelike`. An error is handed out as its message. The outcome
/// depends on the text and the format alone.
#[verifier::external_body]
fn time_from_text(s: &str, format: &str) -> (r: Result<Time, String>)
    ensures
        match r {
            Ok(t) => time_of_text(s@, format@) == Ok::<(u32, u32, u32, u32), Seq<char>>(
                (t.hour, t.minute, t.second, t.nanosecond),
            ),
            Err(m) => time_of_text(s@, format@) == Err::<(u32, u32, u32, u32), Seq<char>>(m@),
        },
{
    match chrono::NaiveTime::parse_from_str(s, format) {
        Ok(t) => Ok(
            Time {
                hour: t.hour(),
                minute: t.minute(),
                second: t.second(),
                nanosecond: t.nanosecond(),
            },
        ),
        Err(e) => Err(e.to_string()),
    }
}

impl Time {
    /// The format of a time: hour, minute and second with colons between
    /// them, and an optional fraction of the second.
    pub open spec fn format() -> Seq<char> {
        "%H:%M:%S%.f"@
    }

    /// The time that a text of the form `HH:MM:SS` or `HH:MM:SS.fraction`
    /// denotes, or the message with which the time parser rejects it.
    pub fn from_str(s: &str) -> (r: Result<Time, String>)
        ensures
            match r {
                Ok(t) => time_of_text(s@, Time::format()) == Ok::<
                    (u32, u32, u32, u32),
                    Seq<char>,
                >((t.hour, t.minute, t.second, t.nanosecond)),
                Err(m) => time_of_text(s@, Time::format()) == Err::<
                    (u32, u32, u32, u32),
                    Seq<char>,
                >(m@),
            },
    {
        time_from_text(s, "%H:%M:%S%.f")
    }
}

impl Leaf for Time {
    /// A time of the form `HH:MM:SS` or `HH:MM:SS.fraction`.
    open spec fn of_text(text: Seq<char>) -> Result<Time, ErrorKindView> {
        match time_of_text(text, Time::format()) {
            Ok((hour, minute, second, nanosecond)) => Ok(Time { hour, minute, second, nanosecond }),
            Err(m) => Err(ErrorKindView::Deserialize(m)),
        }
    }

    fn from_token(token: String) -> (r: Result<Time, ErrorKind>) {
        match Time::from_str(token.as_str()) {
            Ok(t) => Ok(t),
            Err(m) => Err(ErrorKind::Deserialize(m)),
        }
    }
}

/// Reader / writer version.
#[derive(Clone, Debug, PartialEq, Eq)]
pub struct Version {
    /// The major version.
    pub major: u64,
    /// The minor version.
    pub minor: u64,
    /// The patch version.
    pub patch: u64,
    /// The identifiers of a pre-release.
    pub pre: Vec<String>,
    /// The identifiers of the build.
    pub build: Vec<String>,
}

/// The mathematical value of a [`Version`].
pub struct VersionView {
    pub major: u64,
    pub minor: u64,
    pub patch: u64,
    pub pre: Seq<Seq<char>>,
    pub build: Seq<Seq<char>>,
}

impl DeepView for Version {
    type V = VersionView;

    open spec fn deep_view(&self) -> VersionView {
        VersionView {
            major: self.major,
            minor: self.minor,
            patch: self.patch,
            pre: self.pre.deep_view(),
            build: self.build.deep_view(),
        }
    }
}

/// What the parser of semantic versions makes of a text: major, minor and
/// patch number with the identifiers of pre-release and build, or the message
/// of its error.
pub uninterp spec fn semver_of_text(text: Seq<char>) -> Result<
    (u64, u64, u64, Seq<Seq<char>>, Seq<Seq<char>>),
    Seq<char>,
>;

/// Parses a semantic version with `semver::Version::parse`, and writes each
/// identifier of its pre-release and build as text. An error is handed out
/// as its message. The outcome depends on the text alone.
#[verifier::external_body]
fn semver_from_text(s: &str) -> (r: Result<Version, String>)
    ensures
        match r {
            Ok(v) => semver_of_text(s@) == Ok::<
                (u64, u64, u64, Seq<Seq<char>>, Seq<Seq<char>>),
                Seq<char>,
            >((v.major, v.minor, v.patch, v.pre.deep_view(), v.build.deep_view())),
            Err(m) => semver_of_text(s@) == Err::<
                (u64, u64, u64, Seq<Seq<char>>, Seq<Seq<char>>),
                Seq<char>,
            >(m@),
        },
{
    match semver::Version::parse(s) {
        Ok(v) => Ok(
            Version {
                major: v.major,
                minor: v.minor,
                patch: v.patch,
                pre: v.pre.iter().map(|i| i.to_string()).collect(),
                build: v.build.iter().map(|i| i.to_string()).collect(),
            },
        ),
        Err(e) => Err(e.to_string()),
    }
}

/// Counts how often a character occurs among `chars`.
fn count_occurrences(chars: &Vec<char>, c: char) -> (n: usize)
    ensures
        n == occurrences(chars@, c),
{
    let mut n: usize = 0;
    let mut i: usize = 0;
    while i < chars.len()
        invariant
            i <= chars.len(),
            n <= i,
            n + count_from(chars@, i as int, c) == count_from(chars@, 0, c),
        decreases chars.len() - i,
    {
        if chars[i] == c {
            n += 1;
        }
        i += 1;
    }
    n
}

impl Version {
    /// The text of a version with all three numbers: a text without a dot
    /// is a major version, to which minor and patch version 0 are added; a
    /// text with one dot lacks the patch version 0.
    pub open spec fn completed(text: Seq<char>) -> Seq<char> {
        if occurrences(text, '.') == 0 {
            text + ".0.0"@
        } else if occurrences(text, '.') == 1 {
            text + ".0"@
        } else {
            text
        }
    }

    /// The version that a text of the form `major`, `major.minor` or
    /// `major.minor.patch` denotes, or the message with which the parser of
    /// semantic versions rejects the completed text.
    pub fn from_str(s: &str) -> (r: Result<Version, String>)
        ensures
            match r {
                Ok(v) => semver_of_text(Version::completed(s@)) == Ok::<
                    (u64, u64, u64, Seq<Seq<char>>, Seq<Seq<char>>),
                    Seq<char>,
                >((v.major, v.minor, v.patch, v.pre.deep_view(), v.build.deep_view())),
                Err(m) => semver_of_text(Version::completed(s@)) == Err::<
                    (u64, u64, u64, Seq<Seq<char>>, Seq<Seq<char>>),
                    Seq<char>,
                >(m@),
            },
    {
        let chars = chars_of(s);
        let dots = count_occurrences(&chars, '.');
        if dots == 0 {
            let full = s.to_owned().concat(".0.0");
            semver_from_text(full.as_str())
        } else if dots == 1 {
            let full = s.to_owned().concat(".0");
            semver_from_text(full.as_str())
        } else {
            semver_from_text(s)
        }
    }
}

impl VersionView {
    /// The text of a version: major and minor version with a dot between
    /// them. A version with a patch number, a pre-release or a build has no
    /// such text.
    pub open spec fn text(self) -> Option<Seq<char>> {
        if self.patch != 0 || self.pre.len() != 0 || self.build.len() != 0 {
            None
        } else {
            Some(decimal_text(self.major as nat) + "."@ + decimal_text(self.minor as nat))
        }
    }
}

impl Version {
    /// The text of the version in the form `major.minor`, if it has one.
    pub fn to_text(&self) -> (r: Option<String>)
        ensures
            r.deep_view() == self.deep_view().text(),
    {
        if self.patch != 0 || self.pre.len() != 0 || self.build.len() != 0 {
            None
        } else {
            let text = decimal_string(self.major).concat(".").concat(
                decimal_string(self.minor).as_str(),
            );
            Some(text)
        }
    }
}

impl Leaf for Version {
    /// A version of the form `major`, `major.minor` or `major.minor.patch`.
    open spec fn of_text(text: Seq<char>) -> Result<VersionView, ErrorKindView> {
        match semver_of_text(Version::completed(text)) {
            Ok((major, minor, patch, pre, build)) => Ok(
                VersionView { major, minor, patch, pre, build },
            ),
            Err(m) => Err(ErrorKindView::Deserialize(m)),
        }
    }

    fn from_token(token: String) -> (r: Result<Version, ErrorKind>) {
        match Version::from_str(token.as_str()) {
            Ok(v) => Ok(v),
            Err(m) => Err(ErrorKind::Deserialize(m)),
        }
    }
}

/// The parts of a text between the occurrences of a separator, from `pos`
/// on, behind the parts `acc`. A text without the separator is one part; two
/// separators in a row hold an empty part between them.
pub open spec fn split_from(text: Seq<char>, pos: int, sep: char, acc: Seq<Seq<char>>) -> Seq<
    Seq<char>,
>
    decreases text.len() - pos,
{
    let end = token_end(text, pos, sep);
    let parts = acc.push(text.subrange(pos, end));
    if 0 <= pos && end < text.len() {
        proof {
            lemma_token_end(text, pos, sep);
        }
        split_from(text, end + 1, sep, parts)
    } else {
        parts
    }
}

/// The parts of a text between the occurrences of a separator.
pub open spec fn split(text: Seq<char>, sep: char) -> Seq<Seq<char>> {
    split_from(text, 0, sep, Seq::empty())
}

/// The parts of a text put together again, with a separator between each
/// two of them. No part gives the empty text, one part gives itself.
pub open spec fn join(parts: Seq<Seq<char>>, sep: char) -> Seq<char>
    decreases parts.len(),
{
    if parts.len() == 0 {
        Seq::empty()
    } else if parts.len() == 1 {
        parts[0]
    } else {
        parts[0].push(sep) + join(parts.drop_first(), sep)
    }
}

/// Test numbers in a series of tests.
#[derive(Clone, Debug, PartialEq, Eq)]
pub struct TestNumbers(pub Vec<TestNumber>);

impl DeepView for TestNumbers {
    type V = Seq<Seq<char>>;

    open spec fn deep_view(&self) -> Seq<Seq<char>> {
        self.0.deep_view()
    }
}

/// The character between two test numbers.
pub const TEST_NUMBERS_SEPARATOR: char = ';';

impl TestNumbers {
    /// The text of the test numbers: the numbers with semicolons between
    /// them.
    pub fn to_text(&self) -> (r: String)
        ensures
            r@ == join(self.deep_view(), TEST_NUMBERS_SEPARATOR),
    {
        let mut text = String::new();
        let n: usize = self.0.len();
        let mut i: usize = 0;
        let ghost numbers = self.deep_view();
        assert(numbers.skip(0) =~= numbers);
        assert(text@ + join(numbers, TEST_NUMBERS_SEPARATOR) =~= join(
            numbers,
            TEST_NUMBERS_SEPARATOR,
        ));
        while i < n
            invariant
                i <= n,
                n == self.0.len(),
                numbers == self.deep_view(),
                text@ + join(numbers.skip(i as int), TEST_NUMBERS_SEPARATOR) == join(
                    numbers,
                    TEST_NUMBERS_SEPARATOR,
                ),
            decreases n - i,
        {
            let ghost before = text@;
            let ghost rest = numbers.skip(i as int);
            let ghost tail = join(numbers.skip(i + 1), TEST_NUMBERS_SEPARATOR);
            assert(rest.drop_first() =~= numbers.skip(i + 1));
            assert(rest[0] == self.0[i as int].0@);
            text.append(self.0[i].0.as_str());
            if i + 1 < n {
                push_char(&mut text, TEST_NUMBERS_SEPARATOR);
                assert(text@ + tail =~= before + (rest[0].push(TEST_NUMBERS_SEPARATOR) + tail));
            } else {
                assert(tail =~= Seq::<char>::empty());
                assert(text@ + tail =~= before + rest[0]);
            }
            i += 1;
        }
        assert(join(numbers.skip(n as int), TEST_NUMBERS_SEPARATOR) =~= Seq::<char>::empty());
        assert(text@ + Seq::<char>::empty() =~= text@);
        text
    }

    /// The test numbers that a text lists, with semicolons between them.
    /// Every text is such a list.
    pub fn from_str(s: &str) -> (r: Result<TestNumbers, ()>)
        ensures
            r matches Ok(t) && t.deep_view() == split(s@, TEST_NUMBERS_SEPARATOR),
    {
        let chars = chars_of(s);
        let mut numbers: Vec<TestNumber> = Vec::new();
        let mut pos: usize = 0;
        assert(numbers.deep_view() =~= Seq::empty());
        loop
            invariant
                pos <= chars.len(),
                chars@ == s@,
                split_from(s@, pos as int, TEST_NUMBERS_SEPARATOR, numbers.deep_view()) == split(
                    s@,
                    TEST_NUMBERS_SEPARATOR,
                ),
            decreases chars.len() - pos,
        {
            let ghost acc = numbers.deep_view();
            let end = find_token_end(&chars, pos, TEST_NUMBERS_SEPARATOR);
            let part = text_of(&chars, pos, end);
            numbers.push(TestNumber(part));
            assert(numbers.deep_view() =~= acc.push(s@.subrange(pos as int, end as int)));
            if end < chars.len() {
                pos = end + 1;
            } else {
                return Ok(TestNumbers(numbers));
            }
        }
    }
}

impl Leaf for TestNumbers {
    /// Test numbers with semicolons between them.
    open spec fn of_text(text: Seq<char>) -> Result<Seq<Seq<char>>, ErrorKindView> {
        Ok(split(text, TEST_NUMBERS_SEPARATOR))
    }

    fn from_token(token: String) -> (r: Result<TestNumbers, ErrorKind>) {
        match TestNumbers::from_str(token.as_str()) {
            Ok(t) => Ok(t),
            Err(_) => Err(ErrorKind::Deserialize(String::new())),
        }
    }
}

/// Whether a character is a sign.
pub open spec fn is_sign(c: char) -> bool {
    c == '+' || c == '-'
}

/// Whether a character is the lower-case letter `lower` or its upper-case
/// form.
pub open spec fn spec_is_letter(c: char, lower: char) -> bool {
    c == lower || (c as u32) + 32 == lower as u32
}

/// Whether a character is the lower-case letter `lower` or its upper-case
/// form.
#[verifier::when_used_as_spec(spec_is_letter)]
pub fn is_letter(c: char, lower: char) -> (b: bool)
    ensures
        b == spec_is_letter(c, lower),
{
    c == lower || (c as u32) + 32 == lower as u32
}

/// Whether a text is a word of lower-case letters, written in any mix of
/// upper and lower case.
pub open spec fn is_word(text: Seq<char>, word: Seq<char>) -> bool {
    &&& text.len() == word.len()
    &&& forall|i: int| 0 <= i < text.len() ==> is_letter(#[trigger] text[i], word[i])
}

/// The end of the run of decimal digits that starts at `pos`.
pub open spec fn digits_end(text: Seq<char>, pos: int) -> int
    decreases text.len() - pos,
{
    if 0 <= pos < text.len() && is_digit(text[pos]) {
        digits_end(text, pos + 1)
    } else {
        pos
    }
}

/// Whether a text is a decimal number: digits with at most one point among
/// them, at least one digit in all, and behind them an optional exponent,
/// which is the letter `e`, an optional sign and at least one digit.
pub open spec fn is_number(text: Seq<char>) -> bool {
    let a = digits_end(text, 0);
    let point = a < text.len() && text[a] == '.';
    let b = if point {
        digits_end(text, a + 1)
    } else {
        a
    };
    let digits = if point {
        b - 1
    } else {
        b
    };
    let c = if b + 1 < text.len() && is_sign(text[b + 1]) {
        b + 2
    } else {
        b + 1
    };
    &&& digits > 0
    &&& b == text.len() || (is_letter(text[b], 'e') && c < digits_end(text, c) && digits_end(
        text,
        c,
    ) == text.len())
}

/// Whether a text is a floating-point literal: an optional sign, and then
/// `inf`, `infinity` or `nan` in any mix of cases, or a decimal number.
pub open spec fn is_float_literal(text: Seq<char>) -> bool {
    let body = if text.len() > 0 && is_sign(text[0]) {
        text.drop_first()
    } else {
        text
    };
    is_word(body, "inf"@) || is_word(body, "infinity"@) || is_word(body, "nan"@) || is_number(body)
}

/// The message for a text that is no floating-point literal.
pub open spec fn float_error_text(text: Seq<char>) -> Seq<char> {
    if text.len() == 0 {
        "cannot parse float from empty string"@
    } else {
        "invalid float literal"@
    }
}

/// The end of the run of decimal digits that starts at `from`.
fn skip_digits(chars: &Vec<char>, from: usize) -> (end: usize)
    requires
        from <= chars.len(),
    ensures
        end == digits_end(chars@, from as int),
        from <= end <= chars.len(),
{
    let mut i: usize = from;
    while i < chars.len() && '0' <= chars[i] && chars[i] <= '9'
        invariant
            from <= i <= chars.len(),
            digits_end(chars@, from as int) == digits_end(chars@, i as int),
        decreases chars.len() - i,
    {
        i += 1;
    }
    i
}

/// Whether the characters from `from` on are the given word in any mix of
/// cases.
fn is_word_from(chars: &Vec<char>, from: usize, word: &str) -> (b: bool)
    requires
        from <= chars.len(),
    ensures
        b == is_word(chars@.subrange(from as int, chars.len() as int), word@),
{
    let w = chars_of(word);
    let ghost text = chars@.subrange(from as int, chars.len() as int);
    if chars.len() - from != w.len() {
        return false;
    }
    let mut i: usize = 0;
    while i < w.len()
        invariant
            i <= w.len(),
            from + w.len() == chars.len(),
            w@ == word@,
            text == chars@.subrange(from as int, chars.len() as int),
            forall|j: int| 0 <= j < i ==> is_letter(#[trigger] text[j], w[j]),
        decreases w.len() - i,
    {
        if !is_letter(chars[from + i], w[i]) {
            assert(!is_letter(text[i as int], w[i as int]));
            return false;
        }
        i += 1;
    }
    true
}

/// Whether the characters from `from` on are a decimal number.
fn is_number_from(chars: &Vec<char>, from: usize) -> (b: bool)
    requires
        from <= chars.len(),
    ensures
        b == is_number(chars@.subrange(from as int, chars.len() as int)),
{
    let body: Vec<char> = slice_from(chars, from);
    let n: usize = body.len();
    let a = skip_digits(&body, 0);
    let point = a < n && body[a] == '.';
    let b = if point {
        skip_digits(&body, a + 1)
    } else {
        a
    };
    let digits: usize = if point {
        b - 1
    } else {
        b
    };
    if digits == 0 {
        return false;
    }
    if b == n {
        return true;
    }
    if !is_letter(body[b], 'e') {
        return false;
    }
    let c: usize = if b + 1 < n && (body[b + 1] == '+' || body[b + 1] == '-') {
        b + 2
    } else {
        b + 1
    };
    let d = skip_digits(&body, c);
    c < d && d == n
}

/// The characters of `chars` from `from` on.
fn slice_from(chars: &Vec<char>, from: usize) -> (r: Vec<char>)
    requires
        from <= chars.len(),
    ensures
        r@ == chars@.subrange(from as int, chars.len() as int),
{
    let mut r: Vec<char> = Vec::new();
    let mut i: usize = from;
    while i < chars.len()
        invariant
            from <= i <= chars.len(),
            r@ == chars@.subrange(from as int, i as int),
        decreases chars.len() - i,
    {
        r.push(chars[i]);
        i += 1;
    }
    r
}

/// A real number, kept as the text of its literal.
#[derive(Debug, PartialEq, Eq)]
pub struct Real {
    text: String,
}

impl Clone for Real {
    fn clone(&self) -> (r: Real)
        ensures
            r.deep_view() == self.deep_view(),
    {
        proof {
            use_type_invariant(self);
        }
        Real { text: self.text.clone() }
    }
}

impl DeepView for Real {
    type V = Seq<char>;

    closed spec fn deep_view(&self) -> Seq<char> {
        self.text@
    }
}

impl Real {
    #[verifier::type_invariant]
    spec fn inv(self) -> bool {
        is_float_literal(self.text@)
    }

    /// The literal of the number, which is a floating-point literal.
    pub fn as_str(&self) -> (s: &str)
        ensures
            s@ == self.deep_view(),
            is_float_literal(s@),
    {
        proof {
            use_type_invariant(self);
        }
        self.text.as_str()
    }

    /// The number that a text denotes: the text itself where it is a
    /// floating-point literal. Another text is rejected with a message.
    pub fn from_str(s: &str) -> (r: Result<Real, String>)
        ensures
            match r {
                Ok(v) => is_float_literal(s@) && v.deep_view() == s@,
                Err(m) => !is_float_literal(s@) && m@ == float_error_text(s@),
            },
    {
        let chars = chars_of(s);
        let from: usize = if chars.len() > 0 && (chars[0] == '+' || chars[0] == '-') {
            1
        } else {
            0
        };
        assert(chars@.subrange(1, chars.len() as int) =~= chars@.drop_first());
        assert(chars@.subrange(0, chars.len() as int) =~= chars@);
        if is_word_from(&chars, from, "inf") || is_word_from(&chars, from, "infinity")
            || is_word_from(&chars, from, "nan") || is_number_from(&chars, from) {
            Ok(Real { text: s.to_owned() })
        } else if chars.len() == 0 {
            Err("cannot parse float from empty string".to_owned())
        } else {
            Err("invalid float literal".to_owned())
        }
    }
}

impl Leaf for Real {
    /// A floating-point literal.
    open spec fn of_text(text: Seq<char>) -> Result<Seq<char>, ErrorKindView> {
        if is_float_literal(text) {
            Ok(text)
        } else {
            Err(ErrorKindView::ParseFloatError(float_error_text(text)))
        }
    }

    fn from_token(token: String) -> (r: Result<Real, ErrorKind>) {
        match Real::from_str(token.as_str()) {
            Ok(v) => Ok(v),
            Err(m) => Err(ErrorKind::ParseFloatError(m)),
        }
    }
}

/// Header for the file
#[derive(Debug, PartialEq, Eq)]
pub struct FileHeader {
    /// Date when the data collection started.
    pub date: Date,
    /// Description of the data.
    pub description: Option<String>,
    /// Symbol used to separate the integral part of a number from the fractional
    /// part.
    pub decimal_separator: DecimalSeparator,
    /// Specifies whether each packet has a header.
    pub multi_headings: bool,
    /// Operator who generated these measurements.
    pub operator: Option<OperatorName>,
    /// Name of the project associated with the data in the file.
    pub project: Option<ProjectName>,
    /// Version number of the reader needed to parse the file correctly.
    pub reader_version: Version,
    /// Character used to separate each field in the file.
    pub separator: Separator,
    /// Time at which the start of a data series occurred.
    pub time: Time,
    /// Format of the x-axis values.
    pub time_pref: TimePref,
    /// Version number of the file type written by the software.
    pub writer_version: Version,
    /// Specifies which x-values are saved.
    pub x_columns: XColumns,
}

/// The mathematical value of a [`FileHeader`].
pub struct FileHeaderView {
    pub date: Date,
    pub description: Option<Seq<char>>,
    pub decimal_separator: DecimalSeparator,
    pub multi_headings: bool,
    pub operator: Option<Seq<char>>,
    pub project: Option<Seq<char>>,
    pub reader_version: VersionView,
    pub separator: Separator,
    pub time: Time,
    pub time_pref: TimePref,
    pub writer_version: VersionView,
    pub x_columns: XColumns,
}

impl DeepView for FileHeader {
    type V = FileHeaderView;

    open spec fn deep_view(&self) -> FileHeaderView {
        FileHeaderView {
            date: self.date.deep_view(),
            description: self.description.deep_view(),
            decimal_separator: self.decimal_separator.deep_view(),
            multi_headings: self.multi_headings.deep_view(),
            operator: self.operator.deep_view(),
            project: self.project.deep_view(),
            reader_version: self.reader_version.deep_view(),
            separator: self.separator.deep_view(),
            time: self.time.deep_view(),
            time_pref: self.time_pref.deep_view(),
            writer_version: self.writer_version.deep_view(),
            x_columns: self.x_columns.deep_view(),
        }
    }
}

/// Header for measurement data
#[derive(Debug, PartialEq, Eq)]
pub struct MeasurementHeader {
    /// Number of channels in the packet, and their names.
    pub channels: (usize, Vec<ChannelName>),
    /// Date the data set in the segment started, one for each data set.
    pub date: Vec<Date>,
    /// The increment between points on the x-axis, one for each data set.
    pub delta_x: Vec<Real>,
    /// Comments the user adds to the segment header.
    pub notes: Option<String>,
    /// Number of samples in each waveform in the packet.
    pub samples: Vec<usize>,
    /// Name of the test that acquired the segment of data.
    pub test_name: Option<TestName>,
    /// Test numbers in the series that acquired the data in this segment.
    pub test_numbers: Option<TestNumbers>,
    /// Series of the test performed to get the data in this packet.
    pub test_series: Option<TestSeries>,
    /// Time of day when the data set in the segment started, one for each data
    /// set.
    pub time: Vec<Time>,
    /// Model number of the unit under test.
    pub uut_mn: Option<ModelNumber>,
    /// Name or instrument class of the unit under test.
    pub uut_name: Option<InstrumentName>,
    /// Serial number of the unit under test.
    pub uut_sn: Option<SerialNumber>,
    /// The initial value for the x-axis, one for each data set.
    pub x0: Vec<Real>,
    /// Unit type of the x-axis.
    pub x_dimension: Option<Vec<UnitType>>,
    /// Labels for the units used in plotting the x data.
    pub x_unit_label: Option<Vec<Unit>>,
    /// Unit type of the y-axis.
    pub y_dimension: UnitType,
    /// Labels for the units used in plotting the y data.
    pub y_unit_label: Option<Vec<Unit>>,
}

/// The mathematical value of a [`MeasurementHeader`].
pub struct MeasurementHeaderView {
    pub channels: (usize, Seq<Seq<char>>),
    pub date: Seq<Date>,
    pub delta_x: Seq<Seq<char>>,
    pub notes: Option<Seq<char>>,
    pub samples: Seq<usize>,
    pub test_name: Option<Seq<char>>,
    pub test_numbers: Option<Seq<Seq<char>>>,
    pub test_series: Option<Seq<char>>,
    pub time: Seq<Time>,
    pub uut_mn: Option<Seq<char>>,
    pub uut_name: Option<Seq<char>>,
    pub uut_sn: Option<Seq<char>>,
    pub x0: Seq<Seq<char>>,
    pub x_dimension: Option<Seq<UnitType>>,
    pub x_unit_label: Option<Seq<Unit>>,
    pub y_dimension: UnitType,
    pub y_unit_label: Option<Seq<Unit>>,
}

impl DeepView for MeasurementHeader {
    type V = MeasurementHeaderView;

    open spec fn deep_view(&self) -> MeasurementHeaderView {
        MeasurementHeaderView {
            channels: self.channels.deep_view(),
            date: self.date.deep_view(),
            delta_x: self.delta_x.deep_view(),
            notes: self.notes.deep_view(),
            samples: self.samples.deep_view(),
            test_name: self.test_name.deep_view(),
            test_numbers: self.test_numbers.deep_view(),
            test_series: self.test_series.deep_view(),
            time: self.time.deep_view(),
            uut_mn: self.uut_mn.deep_view(),
            uut_name: self.uut_name.deep_view(),
            uut_sn: self.uut_sn.deep_view(),
            x0: self.x0.deep_view(),
            x_dimension: self.x_dimension.deep_view(),
            x_unit_label: self.x_unit_label.deep_view(),
            y_dimension: self.y_dimension.deep_view(),
            y_unit_label: self.y_unit_label.deep_view(),
        }
    }
}

/// One row of measured data.
#[derive(Clone, Debug, PartialEq, Eq)]
pub struct DataRow {
    /// The numbers of the row.
    pub values: Vec<Real>,
    /// The comment behind the numbers.
    pub comment: Option<String>,
}

/// The mathematical value of a [`DataRow`].
pub struct DataRowView {
    pub values: Seq<Seq<char>>,
    pub comment: Option<Seq<char>>,
}

impl DeepView for DataRow {
    type V = DataRowView;

    open spec fn deep_view(&self) -> DataRowView {
        DataRowView { values: self.values.deep_view(), comment: self.comment.deep_view() }
    }
}

/// A set of measurements.
#[derive(Debug, PartialEq, Eq)]
pub struct Measurement {
    /// Header for this measurement segment.
    pub header: MeasurementHeader,
    /// Headings for data columns.
    pub data_headings: Vec<String>,
    /// Data rows.
    pub data: Vec<DataRow>,
}

/// The mathematical value of a [`Measurement`].
pub struct MeasurementView {
    pub header: MeasurementHeaderView,
    pub data_headings: Seq<Seq<char>>,
    pub data: Seq<DataRowView>,
}

impl DeepView for Measurement {
    type V = MeasurementView;

    open spec fn deep_view(&self) -> MeasurementView {
        MeasurementView {
            header: self.header.deep_view(),
            data_headings: self.data_headings.deep_view(),
            data: self.data.deep_view(),
        }
    }
}

/// LVM file.
#[derive(Debug, PartialEq, Eq)]
pub struct File {
    /// Metadata on the file itself.
    pub header: FileHeader,
    /// Measurement segments.
    pub measurements: Vec<Measurement>,
}

/// The mathematical value of a [`File`].
pub struct FileView {
    pub header: FileHeaderView,
    pub measurements: Seq<MeasurementView>,
}

impl DeepView for File {
    type V = FileView;

    open spec fn deep_view(&self) -> FileView {
        FileView { header: self.header.deep_view(), measurements: self.measurements.deep_view() }
    }
}

} // verus!

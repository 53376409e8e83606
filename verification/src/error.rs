//! The reasons for which an entry of the feed gives no record.

use vstd::prelude::*;
use vstd::string::*;

verus! {

/// A product code that matched the code grammar without yielding its parts.
#[derive(Debug, Clone, PartialEq, Eq)]
pub enum IDError {
    Format(String),
}

/// An [`IDError`] with its text as a sequence of characters.
pub enum IDErrorView {
    Format(Seq<char>),
}

impl View for IDError {
    type V = IDErrorView;

    open spec fn view(&self) -> IDErrorView {
        match self {
            IDError::Format(code) => IDErrorView::Format(code@),
        }
    }
}

impl IDError {
    /// The error as a line of text.
    pub fn message(&self) -> (text: String)
        ensures
            text@ == "invalid ID format: "@ + self@->Format_0,
    {
        match self {
            IDError::Format(code) => String::from_str("invalid ID format: ").concat(code.as_str()),
        }
    }
}

/// Why an entry of the feed gives no record.
#[derive(Debug, Clone, PartialEq, Eq)]
pub enum RecordError {
    /// A timestamp does not follow its dialect.
    TimestampFormat,
    /// The level of a product code is not a decimal numeral.
    LevelParse,
    /// The level of a product code does not fit in eight bits.
    LevelOutOfRange,
    /// The severity letter of a product code is none of `A`, `S`, `W`, `F`.
    UnknownSeverity(String),
    /// The message lacks the labelled fields of a bulletin; holds the message.
    BulletinFormat(String),
    /// The serial number is not a decimal numeral of 64 bits.
    SerialNumber,
    /// The match of a product code lacks one of its three parts.
    Id(IDError),
    /// A pattern of the library was refused as a regular expression.
    Pattern,
}

/// A [`RecordError`] with its texts as sequences of characters.
pub enum RecordErrorView {
    TimestampFormat,
    LevelParse,
    LevelOutOfRange,
    UnknownSeverity(Seq<char>),
    BulletinFormat(Seq<char>),
    SerialNumber,
    Id(IDErrorView),
    Pattern,
}

impl View for RecordError {
    type V = RecordErrorView;

    open spec fn view(&self) -> RecordErrorView {
        match self {
            RecordError::TimestampFormat => RecordErrorView::TimestampFormat,
            RecordError::LevelParse => RecordErrorView::LevelParse,
            RecordError::LevelOutOfRange => RecordErrorView::LevelOutOfRange,
            RecordError::UnknownSeverity(letter) => RecordErrorView::UnknownSeverity(letter@),
            RecordError::BulletinFormat(message) => RecordErrorView::BulletinFormat(message@),
            RecordError::SerialNumber => RecordErrorView::SerialNumber,
            RecordError::Id(e) => RecordErrorView::Id(e@),
            RecordError::Pattern => RecordErrorView::Pattern,
        }
    }
}

/// The line of text that tells of an error.
pub open spec fn error_text(error: RecordErrorView) -> Seq<char> {
    match error {
        RecordErrorView::TimestampFormat => "timestamp does not follow its format"@,
        RecordErrorView::LevelParse => "level is not a number"@,
        RecordErrorView::LevelOutOfRange => "level is out of range"@,
        RecordErrorView::UnknownSeverity(letter) => "unknown severity: "@ + letter,
        RecordErrorView::BulletinFormat(message) => "invalid format of record message: "@ + message,
        RecordErrorView::SerialNumber => "serial number is not a number"@,
        RecordErrorView::Id(IDErrorView::Format(code)) => "invalid ID format: "@ + code,
        RecordErrorView::Pattern => "pattern is no regular expression"@,
    }
}

impl RecordError {
    /// The error as a line of text.
    pub fn message(&self) -> (text: String)
        ensures
            text@ == error_text(self@),
    {
        match self {
            RecordError::TimestampFormat => String::from_str("timestamp does not follow its format"),
            RecordError::LevelParse => String::from_str("level is not a number"),
            RecordError::LevelOutOfRange => String::from_str("level is out of range"),
            RecordError::UnknownSeverity(letter) => String::from_str("unknown severity: ").concat(
                letter.as_str(),
            ),
            RecordError::BulletinFormat(message) => String::from_str(
                "invalid format of record message: ",
            ).concat(message.as_str()),
            RecordError::SerialNumber => String::from_str("serial number is not a number"),
            RecordError::Id(e) => e.message(),
            RecordError::Pattern => String::from_str("pattern is no regular expression"),
        }
    }
}

} // verus!

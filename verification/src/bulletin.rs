//! The body of a bulletin: its labelled fields and the text behind them.

use vstd::prelude::*;
use vstd::string::*;
use crate::error::{RecordError, RecordErrorView};
use crate::instant::{issue_time_instant, parse_issue_time, Instant};
use crate::number::{parse_decimal, parse_u64};
use crate::pattern::{
    captures, captures_view, group, groups_present, has_groups, pattern_captures, pattern_compiles,
};

verus! {

/// The structured body of a bulletin.
#[derive(Debug, Clone, PartialEq, Eq)]
pub struct RecordMessage {
    pub space_weather_access_code: String,
    pub sn: u64,
    pub issue_time: Instant,
    pub message: String,
}

/// A [`RecordMessage`] with its texts as sequences of characters.
pub struct RecordMessageView {
    pub space_weather_access_code: Seq<char>,
    pub sn: u64,
    pub issue_time: Instant,
    pub message: Seq<char>,
}

impl View for RecordMessage {
    type V = RecordMessageView;

    open spec fn view(&self) -> RecordMessageView {
        RecordMessageView {
            space_weather_access_code: self.space_weather_access_code@,
            sn: self.sn,
            issue_time: self.issue_time,
            message: self.message@,
        }
    }
}

/// The layout of a bulletin: the three labelled fields in their order, the
/// issue time in its fixed width of [`crate::instant::ISSUE_TIME_WIDTH`]
/// characters, and the text behind it.
pub open spec fn bulletin_pattern() -> Seq<char> {
    r"(?ms)Space Weather Message Code:\s*(.*?)\s*Serial Number:\s*(\d*)\s*Issue Time:\s*(.{20})\s*(.*)"@
}

/// The bulletin that the four fields of a message give, the issue time
/// already normalized.
pub open spec fn bulletin_of_fields(
    code: Seq<char>,
    serial: Seq<char>,
    issue_time: Instant,
    text: Seq<char>,
) -> Result<RecordMessageView, RecordErrorView> {
    match parse_decimal(serial, u64::MAX as nat) {
        Ok(sn) => Ok(
            RecordMessageView {
                space_weather_access_code: code,
                sn: sn as u64,
                issue_time,
                message: text,
            },
        ),
        Err(_) => Err(RecordErrorView::SerialNumber),
    }
}

/// The bulletin in `message`, given what the search for the layout found.
pub open spec fn bulletin_of_captures(message: Seq<char>, found: Option<Seq<Option<Seq<char>>>>) -> Result<
    RecordMessageView,
    RecordErrorView,
> {
    match found {
        None => Err(RecordErrorView::BulletinFormat(message)),
        Some(groups) => if !has_groups(groups, 4) {
            Err(RecordErrorView::BulletinFormat(message))
        } else {
            match issue_time_instant(groups[3]->0) {
                Err(_) => Err(RecordErrorView::TimestampFormat),
                Ok(issue_time) => bulletin_of_fields(groups[1]->0, groups[2]->0, issue_time, groups[4]->0),
            }
        },
    }
}

/// The bulletin in `message`.
pub open spec fn bulletin_of(message: Seq<char>) -> Result<RecordMessageView, RecordErrorView> {
    if pattern_compiles(bulletin_pattern()) {
        bulletin_of_captures(message, pattern_captures(bulletin_pattern(), message))
    } else {
        Err(RecordErrorView::Pattern)
    }
}

impl RecordMessage {
    /// Builds a bulletin from its four fields, the issue time already
    /// normalized. The serial number is read as a decimal numeral.
    pub fn from_fields(code: &str, serial: &str, issue_time: Instant, text: &str) -> (r: Result<
        RecordMessage,
        RecordError,
    >)
        ensures
            match r {
                Ok(m) => bulletin_of_fields(code@, serial@, issue_time, text@) == Ok::<
                    RecordMessageView,
                    RecordErrorView,
                >(m@),
                Err(e) => bulletin_of_fields(code@, serial@, issue_time, text@) == Err::<
                    RecordMessageView,
                    RecordErrorView,
                >(e@),
            },
    {
        match parse_u64(serial) {
            Ok(sn) => Ok(
                RecordMessage {
                    space_weather_access_code: String::from_str(code),
                    sn,
                    issue_time,
                    message: String::from_str(text),
                },
            ),
            Err(_) => Err(RecordError::SerialNumber),
        }
    }

    /// Builds a bulletin from a message, given what the search for the layout
    /// found in it: `None` for a message without the layout, else the groups
    /// of the match (the whole match, code, serial number, issue time, text).
    pub fn from_captures(message: String, found: &Option<Vec<Option<String>>>) -> (r: Result<
        RecordMessage,
        RecordError,
    >)
        ensures
            match r {
                Ok(m) => bulletin_of_captures(message@, captures_view(*found)) == Ok::<
                    RecordMessageView,
                    RecordErrorView,
                >(m@),
                Err(e) => bulletin_of_captures(message@, captures_view(*found)) == Err::<
                    RecordMessageView,
                    RecordErrorView,
                >(e@),
            },
    {
        match found {
            None => Err(RecordError::BulletinFormat(message)),
            Some(groups) => {
                if !groups_present(groups, 4) {
                    return Err(RecordError::BulletinFormat(message));
                }
                match parse_issue_time(group(groups, 3)) {
                    Err(_) => Err(RecordError::TimestampFormat),
                    Ok(issue_time) => RecordMessage::from_fields(
                        group(groups, 1),
                        group(groups, 2),
                        issue_time,
                        group(groups, 4),
                    ),
                }
            },
        }
    }

    /// Reads the bulletin out of a message.
    pub fn from_message(message: String) -> (r: Result<RecordMessage, RecordError>)
        ensures
            match r {
                Ok(m) => bulletin_of(message@) == Ok::<RecordMessageView, RecordErrorView>(m@),
                Err(e) => bulletin_of(message@) == Err::<RecordMessageView, RecordErrorView>(e@),
            },
    {
        match captures(
            r"(?ms)Space Weather Message Code:\s*(.*?)\s*Serial Number:\s*(\d*)\s*Issue Time:\s*(.{20})\s*(.*)",
            message.as_str(),
        ) {
            Ok(found) => RecordMessage::from_captures(message, &found),
            Err(_) => Err(RecordError::Pattern),
        }
    }
}

} // verus!

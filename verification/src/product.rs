//! Product codes: the grammar of a code and the product that it identifies.

use vstd::prelude::*;
use vstd::string::*;
use crate::error::{IDError, IDErrorView, RecordError, RecordErrorView};
use crate::number::{parse_decimal, parse_u8, DecimalError};
use crate::pattern::{
    captures, captures_view, group, groups_present, has_groups, pattern_captures, pattern_compiles,
};

verus! {

/// The alert class of a bulletin.
#[derive(Debug, Clone, Copy, PartialEq, Eq, Structural)]
pub enum WarningSeverity {
    Warning,
    Alert,
    Forcast,
}

/// What a product code identifies.
#[derive(Debug, Clone, PartialEq, Eq)]
pub enum ID {
    /// A magnetic-disturbance product, key `K`.
    Mag { strength: u8, severity: WarningSeverity },
    /// A flux product, key `EF`.
    Flux { strength: u8, severity: WarningSeverity },
    /// Any other product: the whole code where it is outside the grammar, the
    /// key alone where it is inside.
    Message(String),
}

/// An [`ID`] with its text as a sequence of characters.
pub enum IDView {
    Mag { strength: u8, severity: WarningSeverity },
    Flux { strength: u8, severity: WarningSeverity },
    Message(Seq<char>),
}

impl View for ID {
    type V = IDView;

    open spec fn view(&self) -> IDView {
        match self {
            ID::Mag { strength, severity } => IDView::Mag { strength: *strength, severity: *severity },
            ID::Flux { strength, severity } => IDView::Flux { strength: *strength, severity: *severity },
            ID::Message(text) => IDView::Message(text@),
        }
    }
}

/// The grammar of a product code: a key of one or two capital letters at the
/// start, a level in digits, a severity letter.
pub open spec fn id_pattern() -> Seq<char> {
    r"(\A[A-Z]{1,2})(\d+)([AFWS])"@
}

/// The severity that a letter stands for. `A` and `S` both stand for an alert.
pub open spec fn severity_of(letter: Seq<char>) -> Option<WarningSeverity> {
    if letter == seq!['A'] || letter == seq!['S'] {
        Some(WarningSeverity::Alert)
    } else if letter == seq!['W'] {
        Some(WarningSeverity::Warning)
    } else if letter == seq!['F'] {
        Some(WarningSeverity::Forcast)
    } else {
        None
    }
}

/// The product that key, level and severity identify. A key other than `K`
/// and `EF` gives the key itself; level and severity are then dropped.
pub open spec fn identify(key: Seq<char>, strength: u8, severity: WarningSeverity) -> IDView {
    if key == seq!['K'] {
        IDView::Mag { strength, severity }
    } else if key == seq!['E', 'F'] {
        IDView::Flux { strength, severity }
    } else {
        IDView::Message(key)
    }
}

/// The classification of `code`, given what the search for the code grammar
/// found in it.
pub open spec fn classify(code: Seq<char>, found: Option<Seq<Option<Seq<char>>>>) -> Result<
    IDView,
    RecordErrorView,
> {
    match found {
        None => Ok(IDView::Message(code)),
        Some(groups) => if !has_groups(groups, 3) {
            Err(RecordErrorView::Id(IDErrorView::Format(code)))
        } else {
            match parse_decimal(groups[2]->0, u8::MAX as nat) {
                Err(DecimalError::NotNumeric) => Err(RecordErrorView::LevelParse),
                Err(DecimalError::TooLarge) => Err(RecordErrorView::LevelOutOfRange),
                Ok(level) => match severity_of(groups[3]->0) {
                    None => Err(RecordErrorView::UnknownSeverity(groups[3]->0)),
                    Some(severity) => Ok(identify(groups[1]->0, level as u8, severity)),
                },
            }
        },
    }
}

/// The classification of `code`.
pub open spec fn classify_code(code: Seq<char>) -> Result<IDView, RecordErrorView> {
    if pattern_compiles(id_pattern()) {
        classify(code, pattern_captures(id_pattern(), code))
    } else {
        Err(RecordErrorView::Pattern)
    }
}

/// Whether `text` is the single character `c`.
fn is_letter(text: &str, c: char) -> (r: bool)
    ensures
        r == (text@ == seq![c]),
{
    if text.unicode_len() == 1 {
        let found = text.get_char(0);
        assert(found == c ==> text@ =~= seq![c]);
        found == c
    } else {
        false
    }
}

/// Whether `text` is the two characters `a`, `b`.
fn is_pair(text: &str, a: char, b: char) -> (r: bool)
    ensures
        r == (text@ == seq![a, b]),
{
    if text.unicode_len() == 2 {
        let first = text.get_char(0);
        let second = text.get_char(1);
        assert(first == a && second == b ==> text@ =~= seq![a, b]);
        first == a && second == b
    } else {
        false
    }
}

impl WarningSeverity {
    /// Reads a severity letter.
    pub fn from_letter(letter: &str) -> (r: Option<WarningSeverity>)
        ensures
            r == severity_of(letter@),
    {
        if is_letter(letter, 'A') || is_letter(letter, 'S') {
            Some(WarningSeverity::Alert)
        } else if is_letter(letter, 'W') {
            Some(WarningSeverity::Warning)
        } else if is_letter(letter, 'F') {
            Some(WarningSeverity::Forcast)
        } else {
            None
        }
    }
}

impl ID {
    /// Classifies a product code, given what the search for the code grammar
    /// found in it: `None` for a code outside the grammar, else the groups of
    /// the match (the whole match, key, level, severity letter).
    pub fn from_captures(code: String, found: &Option<Vec<Option<String>>>) -> (r: Result<ID, RecordError>)
        ensures
            match r {
                Ok(id) => classify(code@, captures_view(*found)) == Ok::<IDView, RecordErrorView>(id@),
                Err(e) => classify(code@, captures_view(*found)) == Err::<IDView, RecordErrorView>(e@),
            },
    {
        match found {
            None => Ok(ID::Message(code)),
            Some(groups) => {
                if !groups_present(groups, 3) {
                    return Err(RecordError::Id(IDError::Format(code)));
                }
                let key = group(groups, 1);
                let letter = group(groups, 3);
                let strength = match parse_u8(group(groups, 2)) {
                    Ok(level) => level,
                    Err(DecimalError::NotNumeric) => { return Err(RecordError::LevelParse); },
                    Err(DecimalError::TooLarge) => { return Err(RecordError::LevelOutOfRange); },
                };
                let severity = match WarningSeverity::from_letter(letter) {
                    Some(severity) => severity,
                    None => { return Err(RecordError::UnknownSeverity(String::from_str(letter))); },
                };
                if is_letter(key, 'K') {
                    Ok(ID::Mag { strength, severity })
                } else if is_pair(key, 'E', 'F') {
                    Ok(ID::Flux { strength, severity })
                } else {
                    Ok(ID::Message(String::from_str(key)))
                }
            },
        }
    }

    /// Classifies a product code.
    pub fn from_string(string: String) -> (r: Result<ID, RecordError>)
        ensures
            match r {
                Ok(id) => classify_code(string@) == Ok::<IDView, RecordErrorView>(id@),
                Err(e) => classify_code(string@) == Err::<IDView, RecordErrorView>(e@),
            },
    {
        match captures(r"(\A[A-Z]{1,2})(\d+)([AFWS])", string.as_str()) {
            Ok(found) => ID::from_captures(string, &found),
            Err(_) => Err(RecordError::Pattern),
        }
    }
}

/// A code that matched the grammar with the key `K` or `EF` is never
/// classified as a plain message.
pub proof fn lemma_known_key_is_classified(code: Seq<char>, groups: Seq<Option<Seq<char>>>)
    requires
        has_groups(groups, 3),
        groups[1]->0 == seq!['K'] || groups[1]->0 == seq!['E', 'F'],
    ensures
        !(classify(code, Some(groups)) matches Ok(IDView::Message(_))),
        pattern_compiles(id_pattern()) && pattern_captures(id_pattern(), code) == Some(groups) ==> !(
        classify_code(code) matches Ok(IDView::Message(_))),
{
    assert(seq!['K'] != seq!['E', 'F']) by {
        assert(seq!['K'].len() == 1);
        assert(seq!['E', 'F'].len() == 2);
    }
}

/// A code that matched the grammar is classified as a plain message only
/// where its key is neither `K` nor `EF`, and the message is then the key.
pub proof fn lemma_matched_message_is_key(code: Seq<char>, groups: Seq<Option<Seq<char>>>)
    requires
        has_groups(groups, 3),
        classify(code, Some(groups)) matches Ok(IDView::Message(_)),
    ensures
        groups[1]->0 != seq!['K'],
        groups[1]->0 != seq!['E', 'F'],
        classify(code, Some(groups)) == Ok::<IDView, RecordErrorView>(IDView::Message(groups[1]->0)),
{
}

/// The letters `A` and `S` stand for an alert, `W` for a warning, `F` for a
/// forecast, and no other text stands for a severity.
pub proof fn lemma_severity_letters(letter: Seq<char>)
    ensures
        severity_of(letter) == Some(WarningSeverity::Alert) <==> letter == seq!['A'] || letter == seq!['S'],
        severity_of(letter) == Some(WarningSeverity::Warning) <==> letter == seq!['W'],
        severity_of(letter) == Some(WarningSeverity::Forcast) <==> letter == seq!['F'],
        severity_of(letter) is None <==> letter != seq!['A'] && letter != seq!['S'] && letter != seq!['W']
            && letter != seq!['F'],
        severity_of(seq!['A']) == severity_of(seq!['S']),
{
    assert(seq!['A'][0] == 'A');
    assert(seq!['S'][0] == 'S');
    assert(seq!['W'][0] == 'W');
    assert(seq!['F'][0] == 'F');
}

/// A code that matched the grammar with a level of eight bits and a letter
/// that stands for no severity is an error, whatever its key.
pub proof fn lemma_unknown_severity_fails(code: Seq<char>, groups: Seq<Option<Seq<char>>>)
    requires
        has_groups(groups, 3),
        parse_decimal(groups[2]->0, u8::MAX as nat) is Ok,
        severity_of(groups[3]->0) is None,
    ensures
        classify(code, Some(groups)) == Err::<IDView, RecordErrorView>(
            RecordErrorView::UnknownSeverity(groups[3]->0),
        ),
{
}

/// A code outside the grammar is classified as a plain message that holds
/// the whole code; it is never an error.
pub proof fn lemma_unmatched_code_is_message(code: Seq<char>)
    ensures
        classify(code, None) == Ok::<IDView, RecordErrorView>(IDView::Message(code)),
        pattern_compiles(id_pattern()) && pattern_captures(id_pattern(), code) is None ==> classify_code(code)
            == Ok::<IDView, RecordErrorView>(IDView::Message(code)),
{
}

} // verus!

use space_weather::number::{parse_u64, parse_u8, DecimalError};
use space_weather::error::{IDError, RecordError};
use space_weather::product::{WarningSeverity, ID};

fn groups(parts: &[&str]) -> Option<Vec<Option<String>>> {
    Some(parts.iter().map(|p| Some(p.to_string())).collect())
}

#[test]
fn magnetic_warning_code() {
    assert_eq!(
        ID::from_string("K05W".to_string()),
        Ok(ID::Mag { strength: 5, severity: WarningSeverity::Warning })
    );
}

#[test]
fn flux_alert_code() {
    assert_eq!(
        ID::from_string("EF3A".to_string()),
        Ok(ID::Flux { strength: 3, severity: WarningSeverity::Alert })
    );
}

#[test]
fn letters_a_and_s_both_mean_alert() {
    let a = ID::from_string("K7A".to_string());
    let s = ID::from_string("K7S".to_string());
    assert_eq!(a, Ok(ID::Mag { strength: 7, severity: WarningSeverity::Alert }));
    assert_eq!(a, s);
    assert_eq!(WarningSeverity::from_letter("A"), WarningSeverity::from_letter("S"));
}

#[test]
fn severity_letters() {
    assert_eq!(WarningSeverity::from_letter("A"), Some(WarningSeverity::Alert));
    assert_eq!(WarningSeverity::from_letter("S"), Some(WarningSeverity::Alert));
    assert_eq!(WarningSeverity::from_letter("W"), Some(WarningSeverity::Warning));
    assert_eq!(WarningSeverity::from_letter("F"), Some(WarningSeverity::Forcast));
    assert_eq!(WarningSeverity::from_letter("X"), None);
    assert_eq!(WarningSeverity::from_letter(""), None);
    assert_eq!(WarningSeverity::from_letter("AW"), None);
    assert_eq!(WarningSeverity::from_letter("a"), None);
}

#[test]
fn forecast_code() {
    assert_eq!(
        ID::from_string("EF12F".to_string()),
        Ok(ID::Flux { strength: 12, severity: WarningSeverity::Forcast })
    );
}

#[test]
fn code_outside_the_grammar_is_kept_whole() {
    assert_eq!(ID::from_string("WATA10".to_string()), Ok(ID::Message("WATA10".to_string())));
    assert_eq!(ID::from_string("".to_string()), Ok(ID::Message("".to_string())));
    assert_eq!(
        ID::from_string("any free text".to_string()),
        Ok(ID::Message("any free text".to_string()))
    );
    assert_eq!(ID::from_string("k05w".to_string()), Ok(ID::Message("k05w".to_string())));
    assert_eq!(ID::from_string("ABC1W".to_string()), Ok(ID::Message("ABC1W".to_string())));
    assert_eq!(ID::from_string("K05X".to_string()), Ok(ID::Message("K05X".to_string())));
}

#[test]
fn grammar_is_anchored_at_the_start_only() {
    assert_eq!(ID::from_string(" K05W".to_string()), Ok(ID::Message(" K05W".to_string())));
    assert_eq!(
        ID::from_string("K05Wrest".to_string()),
        Ok(ID::Mag { strength: 5, severity: WarningSeverity::Warning })
    );
}

#[test]
fn matched_code_with_other_key_keeps_the_key_only() {
    assert_eq!(ID::from_string("AB12W".to_string()), Ok(ID::Message("AB".to_string())));
    assert_eq!(ID::from_string("E3A".to_string()), Ok(ID::Message("E".to_string())));
    assert_eq!(ID::from_string("KF3A".to_string()), Ok(ID::Message("KF".to_string())));
}

#[test]
fn level_above_eight_bits() {
    assert_eq!(ID::from_string("K256W".to_string()), Err(RecordError::LevelOutOfRange));
    assert_eq!(
        ID::from_string("K255W".to_string()),
        Ok(ID::Mag { strength: 255, severity: WarningSeverity::Warning })
    );
    assert_eq!(
        ID::from_string("K99999999999999999999999W".to_string()),
        Err(RecordError::LevelOutOfRange)
    );
}

#[test]
fn level_in_other_digits_than_ascii() {
    assert_eq!(ID::from_string("K\u{0663}W".to_string()), Err(RecordError::LevelParse));
}

#[test]
fn captures_with_unknown_severity_letter() {
    let found = groups(&["K5X", "K", "5", "X"]);
    assert_eq!(
        ID::from_captures("K5X".to_string(), &found),
        Err(RecordError::UnknownSeverity("X".to_string()))
    );
}

#[test]
fn level_is_read_before_severity() {
    let found = groups(&["K500X", "K", "500", "X"]);
    assert_eq!(ID::from_captures("K500X".to_string(), &found), Err(RecordError::LevelOutOfRange));
    let found = groups(&["KxX", "K", "x", "X"]);
    assert_eq!(ID::from_captures("KxX".to_string(), &found), Err(RecordError::LevelParse));
    let found = groups(&["ZZ5X", "ZZ", "5", "X"]);
    assert_eq!(
        ID::from_captures("ZZ5X".to_string(), &found),
        Err(RecordError::UnknownSeverity("X".to_string()))
    );
}

#[test]
fn captures_without_a_match() {
    assert_eq!(ID::from_captures("K05W".to_string(), &None), Ok(ID::Message("K05W".to_string())));
}

#[test]
fn captures_that_lack_a_part() {
    let short = groups(&["K5", "K", "5"]);
    assert_eq!(
        ID::from_captures("K5".to_string(), &short),
        Err(RecordError::Id(IDError::Format("K5".to_string())))
    );
    let absent = Some(vec![Some("K5W".to_string()), Some("K".to_string()), None, Some("W".to_string())]);
    assert_eq!(
        ID::from_captures("K5W".to_string(), &absent),
        Err(RecordError::Id(IDError::Format("K5W".to_string())))
    );
}

#[test]
fn captures_of_a_full_match() {
    let found = groups(&["EF3S", "EF", "3", "S"]);
    assert_eq!(
        ID::from_captures("EF3S".to_string(), &found),
        Ok(ID::Flux { strength: 3, severity: WarningSeverity::Alert })
    );
    let found = groups(&["K007F", "K", "007", "F"]);
    assert_eq!(
        ID::from_captures("K007F".to_string(), &found),
        Ok(ID::Mag { strength: 7, severity: WarningSeverity::Forcast })
    );
}

#[test]
fn id_error_message() {
    assert_eq!(IDError::Format("K5".to_string()).message(), "invalid ID format: K5");
}

#[test]
fn decimal_numerals() {
    assert_eq!(parse_u8("0"), Ok(0));
    assert_eq!(parse_u8("05"), Ok(5));
    assert_eq!(parse_u8("255"), Ok(255));
    assert_eq!(parse_u8("256"), Err(DecimalError::TooLarge));
    assert_eq!(parse_u8(""), Err(DecimalError::NotNumeric));
    assert_eq!(parse_u8("+5"), Err(DecimalError::NotNumeric));
    assert_eq!(parse_u8("5 "), Err(DecimalError::NotNumeric));
    assert_eq!(parse_u8("999x"), Err(DecimalError::NotNumeric));
    assert_eq!(parse_u64("42"), Ok(42));
    assert_eq!(parse_u64("18446744073709551615"), Ok(u64::MAX));
    assert_eq!(parse_u64("18446744073709551616"), Err(DecimalError::TooLarge));
    assert_eq!(parse_u64("000000000000000000000000001"), Ok(1));
    assert_eq!(parse_u64("-1"), Err(DecimalError::NotNumeric));
}

use std::convert::TryFrom;
use std::str::FromStr;

use choochoo::cfg_model::{StationId, StationIdInvalidFmt};

#[test]
fn station_id_from_str_returns_ok_owned_for_valid_id() -> Result<(), StationIdInvalidFmt> {
    let station_id = StationId::from_str("good_id")?;

    assert_eq!("good_id", *station_id);
    Ok(())
}

#[test]
fn station_id_try_from_str_returns_ok_borrowed_for_valid_id() -> Result<(), StationIdInvalidFmt> {
    let station_id = StationId::try_from("good_id")?;

    assert_eq!("good_id", *station_id);
    Ok(())
}

#[test]
fn station_id_try_from_string_returns_ok_owned_for_valid_id() -> Result<(), StationIdInvalidFmt> {
    let station_id = StationId::try_from(String::from("good_id"))?;

    assert_eq!("good_id", *station_id);
    Ok(())
}

#[test]
fn station_id_from_str_returns_err_owned_for_invalid_id() {
    let result = StationId::from_str("has space");

    assert_eq!(
        Err(StationIdInvalidFmt::new(String::from("has space"))),
        result
    );
}

#[test]
fn station_id_try_from_str_returns_err_borrowed_for_invalid_id() {
    let result = StationId::try_from("has space");

    assert_eq!(
        Err(StationIdInvalidFmt::new(String::from("has space"))),
        result
    );
}

#[test]
fn station_id_try_from_string_returns_err_owned_for_invalid_id() {
    let result = StationId::try_from(String::from("has space"));

    assert_eq!(
        Err(StationIdInvalidFmt::new(String::from("has space"))),
        result
    );
}

#[test]
fn display_returns_inner_str() -> Result<(), StationIdInvalidFmt> {
    let station_id = StationId::try_from("good_id")?;

    assert_eq!("good_id", station_id.to_string());
    Ok(())
}

#[test]
fn display_returns_readable_message() {
    let station_id_invalid_fmt = StationIdInvalidFmt::new(String::from("a b c"));

    assert_eq!(
        "`a b c` is not a valid station ID. Station IDs can only contain letters, numbers, and underscores.",
        station_id_invalid_fmt.to_string()
    );
}

#[test]
fn new_accepts_letters_digits_and_underscores() {
    assert!(StationId::is_valid_id("abcXYZ_0123456789"));
    assert!(StationId::is_valid_id(""));
    assert!(StationId::new("a_1").is_ok());
}

#[test]
fn new_rejects_other_characters() {
    assert!(!StationId::is_valid_id("a-b"));
    assert!(!StationId::is_valid_id("é"));
    assert!(!StationId::is_valid_id("a.b"));
    assert_eq!(
        Err(StationIdInvalidFmt::new(String::from("a-b"))),
        StationId::new("a-b")
    );
    assert_eq!("a-b", StationId::new("a-b").unwrap_err().value());
}

#[test]
fn clone_and_same_as_compare_characters() -> Result<(), StationIdInvalidFmt> {
    let a = StationId::new("abc")?;
    let b = a.clone();
    let c = StationId::new("abd")?;

    assert!(a.same_as(&b));
    assert!(!a.same_as(&c));
    assert_eq!("abc", a.as_str());
    Ok(())
}

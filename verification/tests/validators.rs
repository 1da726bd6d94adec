use movie_rental::domain::date::Date;
use movie_rental::validators::card_validator::cnp_validator;
use movie_rental::validators::card_validator::first_name_validator;
use movie_rental::validators::card_validator::last_name_validator;
use movie_rental::validators::card_validator::name_validator;
use movie_rental::validators::common_validators::id_validator;
use movie_rental::validators::date_validators::date_validator;
use movie_rental::validators::date_validators::day_validator;
use movie_rental::validators::date_validators::month_validator;
use movie_rental::validators::date_validators::year_validator;
use movie_rental::validators::movie_validator::price_validator;
use movie_rental::validators::movie_validator::release_year_validator;
use movie_rental::validators::movie_validator::title_validator;
use movie_rental::validators::reservation_validator::card_id_validator;
use movie_rental::validators::reservation_validator::time_validator;

#[test]
fn id_always_accepted() {
    assert!(id_validator(0).is_ok());
    assert!(id_validator(u32::MAX).is_ok());
    assert!(card_id_validator(None).is_ok());
    assert!(card_id_validator(Some(7)).is_ok());
}

#[test]
fn name_length_bounds() {
    assert!(name_validator("ab", "first name").is_ok());
    assert!(first_name_validator("Sixteenletters12").is_ok());
    assert_eq!(
        first_name_validator("A").unwrap_err(),
        "The first name needs to be between 1 and 17 characters."
    );
    assert_eq!(
        first_name_validator("Seventeenletters1").unwrap_err(),
        "The first name needs to be between 1 and 17 characters."
    );
    assert_eq!(
        last_name_validator("").unwrap_err(),
        "The last name needs to be between 1 and 17 characters."
    );
}

#[test]
fn name_rejects_spaces() {
    assert_eq!(
        first_name_validator("a b").unwrap_err(),
        "The first name can't contain spaces."
    );
    assert_eq!(
        last_name_validator("von Neumann").unwrap_err(),
        "The last name can't contain spaces."
    );
}

#[test]
fn cnp_rules() {
    assert!(cnp_validator("1234567890123").is_ok());
    assert_eq!(
        cnp_validator("123456789012").unwrap_err(),
        "The CNP must have 13 digits."
    );
    assert_eq!(
        cnp_validator("12345678901234").unwrap_err(),
        "The CNP must have 13 digits."
    );
    assert_eq!(
        cnp_validator("123456789012x").unwrap_err(),
        "The CNP must be made out of digits."
    );
}

#[test]
fn day_bounds() {
    assert!(day_validator(1).is_ok());
    assert!(day_validator(30).is_ok());
    assert_eq!(
        day_validator(0).unwrap_err(),
        "The date's day should be between 0 and 31."
    );
    // The 31st is rejected: the boundary quirk the day rule keeps.
    assert_eq!(
        day_validator(31).unwrap_err(),
        "The date's day should be between 0 and 31."
    );
}

#[test]
fn month_bounds() {
    assert!(month_validator(1).is_ok());
    assert!(month_validator(12).is_ok());
    assert!(month_validator(0).is_err());
    assert_eq!(
        month_validator(13).unwrap_err(),
        "The date's month should be between 0 and 13."
    );
}

#[test]
fn year_bounds() {
    assert!(year_validator(1925).is_ok());
    assert!(year_validator(2025).is_ok());
    assert!(year_validator(1924).is_err());
    assert_eq!(
        year_validator(2026).unwrap_err(),
        "The date's month should be between 1924 and 2026."
    );
}

#[test]
fn date_aggregate_collects_all() {
    let d = Date::new(1, 1, 2000).unwrap();
    assert!(date_validator(&d).is_ok());
    let err = Date::new(31, 13, 1900).unwrap_err();
    assert!(err.contains("The date's day should be between 0 and 31."));
    assert!(err.contains("The date's month should be between 0 and 13."));
    assert!(err.contains("The date's month should be between 1924 and 2026."));
    assert_eq!(
        err,
        "The date's day should be between 0 and 31. \
         The date's month should be between 0 and 13. \
         The date's month should be between 1924 and 2026. "
    );
}

#[test]
fn title_bounds() {
    assert!(title_validator("ab").is_ok());
    assert!(title_validator("a".repeat(20).as_str()).is_ok());
    assert_eq!(
        title_validator("a").unwrap_err(),
        "The title needs to be between 1 and 21 characters."
    );
    assert!(title_validator("a".repeat(21).as_str()).is_err());
}

#[test]
fn release_year_bounds() {
    assert!(release_year_validator(1926).is_ok());
    assert!(release_year_validator(2024).is_ok());
    assert_eq!(
        release_year_validator(1925).unwrap_err(),
        "The release year needs to be between 1925 and 2025"
    );
    assert!(release_year_validator(2025).is_err());
}

#[test]
fn price_bounds() {
    assert!(price_validator(0).is_ok());
    assert!(price_validator(9999).is_ok());
    assert_eq!(
        price_validator(10000).unwrap_err(),
        "The price must be lower than 10.000"
    );
}

#[test]
fn time_rules() {
    assert!(time_validator("00:00").is_ok());
    assert!(time_validator("23:59").is_ok());
    assert!(time_validator("12.30").is_ok());
    assert!(time_validator("12-30").is_ok());
    assert_eq!(
        time_validator("1:30").unwrap_err(),
        "The time must have 5 characters. (hh:mm)"
    );
    assert_eq!(
        time_validator("24:00").unwrap_err(),
        "The hour must be from 0 to 23."
    );
    assert_eq!(
        time_validator("xx:00").unwrap_err(),
        "The hour must be from 0 to 23."
    );
    assert_eq!(
        time_validator("12:60").unwrap_err(),
        "The minutes must be from 0 to 59."
    );
    assert_eq!(
        time_validator("12x30").unwrap_err(),
        "The time separators must be of the following kind: '.', ':', '-'"
    );
}

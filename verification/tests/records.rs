use movie_rental::domain::card::Card;
use movie_rental::domain::date::Date;
use movie_rental::domain::movie::Movie;
use movie_rental::domain::reservation::Reservation;
use movie_rental::repo::traits::Serializable;

fn sample_card() -> Card {
    Card::new(
        1,
        "Adrian",
        "Placinta",
        "1234567890123",
        Date::new(26, 4, 2000).unwrap(),
        Date::new(30, 5, 2003).unwrap(),
        0,
    )
    .unwrap()
}

#[test]
fn card_constructor_returns_inputs() {
    let c = sample_card();
    assert_eq!(c.id(), 1);
    assert_eq!(c.first_name(), "Adrian");
    assert_eq!(c.last_name(), "Placinta");
    assert_eq!(c.cnp(), "1234567890123");
    assert_eq!(c.birthday(), Date::new(26, 4, 2000).unwrap());
    assert_eq!(c.registration_date(), Date::new(30, 5, 2003).unwrap());
    assert_eq!(c.points(), 0);
}

#[test]
fn card_short_first_name_rejected() {
    let err = Card::new(
        1,
        "A",
        "Placinta",
        "1234567890123",
        Date::new(26, 4, 2000).unwrap(),
        Date::new(30, 5, 2003).unwrap(),
        0,
    )
    .unwrap_err();
    assert!(err.contains("The first name needs to be between 1 and 17 characters."));
}

#[test]
fn card_collects_every_failure() {
    let err = Card::new(
        1,
        "A",
        "a b",
        "123456789012",
        Date::new(1, 1, 2000).unwrap(),
        Date::new(1, 1, 2000).unwrap(),
        5,
    )
    .unwrap_err();
    assert!(err.contains("The first name needs to be between 1 and 17 characters."));
    assert!(err.contains("The last name can't contain spaces."));
    assert!(err.contains("The CNP must have 13 digits."));
}

#[test]
fn card_setters_validate_their_field() {
    let mut c = sample_card();
    assert!(c.set_first_name("Maria").is_ok());
    assert_eq!(c.first_name(), "Maria");
    assert!(c.set_first_name("M").is_err());
    assert_eq!(c.first_name(), "Maria");
    assert!(c.set_cnp("9999999999999").is_ok());
    assert_eq!(c.cnp(), "9999999999999");
    assert!(c.set_cnp("abc").is_err());
    assert_eq!(c.cnp(), "9999999999999");
    assert!(c.set_points(17).is_ok());
    assert_eq!(c.points(), 17);
    assert!(c.set_id(9).is_ok());
    assert_eq!(c.id(), 9);
    assert!(c.set_birthday(Date::new(31, 1, 2000).unwrap_or_default()).is_ok());
    assert!(c.set_registration_date(Date::new(2, 2, 1999).unwrap()).is_ok());
}

#[test]
fn date_renders_without_padding() {
    let d = Date::new(26, 4, 2000).unwrap();
    assert_eq!(d.to_string(), "26.4.2000");
}

#[test]
fn date_round_trip_through_text() {
    let d = Date::new(26, 4, 2000).unwrap();
    assert_eq!(Date::from_string(&d.to_string()).unwrap(), d);
    let padded = Date::from_string("01.01.2000").unwrap();
    assert_eq!(padded, Date::default());
}

#[test]
fn date_from_string_rejects_bad_shapes() {
    assert!(Date::from_string("26.4").is_err());
    assert!(Date::from_string("a.b.c").is_err());
    assert_eq!(
        Date::from_string("hello").unwrap_err(),
        "The date must be three dot-separated numbers."
    );
    let err = Date::from_string("31.1.2000").unwrap_err();
    assert!(err.contains("The date's day should be between 0 and 31."));
}

#[test]
fn date_setters_validate_their_field() {
    let mut d = Date::new(26, 4, 2000).unwrap();
    assert!(d.set_day(30).is_ok());
    assert!(d.set_day(31).is_err());
    assert_eq!(d.day(), 30);
    assert!(d.set_month(12).is_ok());
    assert!(d.set_month(0).is_err());
    assert_eq!(d.month(), 12);
    assert!(d.set_year(1925).is_ok());
    assert!(d.set_year(1924).is_err());
    assert_eq!(d.year(), 1925);
}

#[test]
fn card_csv_round_trip() {
    let c = sample_card();
    let line = c.to_csv();
    assert_eq!(
        line,
        "\"1\",\"Adrian\",\"Placinta\",\"1234567890123\",\"26.4.2000\",\"30.5.2003\",\"0\""
    );
    let back = Card::from_csv_to_obj(&line).unwrap();
    assert_eq!(back, c);
}

#[test]
fn movie_constructor_and_round_trip() {
    let m = Movie::new(3, "The General", 1926, 35, true).unwrap();
    assert_eq!(m.id(), 3);
    assert_eq!(m.title(), "The General");
    assert_eq!(m.release_year(), 1926);
    assert_eq!(m.price(), 35);
    assert!(m.in_program());
    let line = m.to_csv();
    assert_eq!(line, "\"3\",\"The General\",\"1926\",\"35\",\"true\"");
    let back = Movie::from_csv_to_obj(&line).unwrap();
    assert_eq!(back, m);
}

#[test]
fn movie_rejects_1925() {
    let err = Movie::new(3, "Metropolis", 1925, 35, false).unwrap_err();
    assert!(err.contains("The release year needs to be between 1925 and 2025"));
}

#[test]
fn movie_setters_validate_their_field() {
    let mut m = Movie::new(3, "The General", 1926, 35, true).unwrap();
    assert!(m.set_title("Sherlock Jr.").is_ok());
    assert!(m.set_title("x").is_err());
    assert_eq!(m.title(), "Sherlock Jr.");
    assert!(m.set_release_year(2024).is_ok());
    assert!(m.set_release_year(2025).is_err());
    assert!(m.set_price(9999).is_ok());
    assert!(m.set_price(10000).is_err());
    assert!(m.set_in_program(false).is_ok());
    assert!(!m.in_program());
    assert!(m.set_id(4).is_ok());
}

#[test]
fn reservation_constructor_and_round_trip() {
    let r = Reservation::new(
        9,
        3,
        Some(1),
        Date::new(2, 6, 2024).unwrap(),
        "18:30".to_string(),
    )
    .unwrap();
    assert_eq!(r.id(), 9);
    assert_eq!(r.movie_id(), 3);
    assert_eq!(r.card_id(), Some(1));
    assert_eq!(r.date(), Date::new(2, 6, 2024).unwrap());
    assert_eq!(r.hour(), "18:30");
    let line = r.to_csv();
    assert_eq!(line, "\"9\",\"3\",\"1\",\"2.6.2024\",\"18:30\"");
    let back = Reservation::from_csv_to_obj(&line).unwrap();
    assert_eq!(back, r);
}

#[test]
fn reservation_walk_in_round_trip() {
    let r = Reservation::new(
        10,
        3,
        None,
        Date::new(2, 6, 2024).unwrap(),
        "09:00".to_string(),
    )
    .unwrap();
    let line = r.to_csv();
    assert_eq!(line, "\"10\",\"3\",\"None\",\"2.6.2024\",\"09:00\"");
    let back = Reservation::from_csv_to_obj(&line).unwrap();
    assert_eq!(back.card_id(), None);
    assert_eq!(back, r);
}

#[test]
fn reservation_rejects_bad_hour() {
    let err = Reservation::new(
        9,
        3,
        None,
        Date::new(2, 6, 2024).unwrap(),
        "25:00".to_string(),
    )
    .unwrap_err();
    assert!(err.contains("The hour must be from 0 to 23."));
}

#[test]
fn from_csv_substitutes_defaults_for_missing_fields() {
    // Only two fields: the rest fall back to their per-type defaults, and
    // the defaulted candidate still passes validation.
    let c = Card::from_csv_to_obj("\"7\",\"Maria\"").unwrap();
    assert_eq!(c.id(), 7);
    assert_eq!(c.first_name(), "Maria");
    assert_eq!(c.last_name(), "lastname");
    assert_eq!(c.cnp(), "1234567890123");
    assert_eq!(c.birthday(), Date::default());
    assert_eq!(c.points(), 0);
    let m = Movie::from_csv_to_obj("\"2\",\"Modern Times\"").unwrap();
    assert_eq!(m.release_year(), 1926);
    assert_eq!(m.price(), 0);
    assert!(!m.in_program());
}

#[test]
fn from_csv_rejects_invalid_candidate() {
    // A line whose recovered fields fail validation aborts the read.
    let err = Card::from_csv_to_obj("\"7\",\"M\",\"Pop\",\"1234567890123\"").unwrap_err();
    assert!(err.contains("The first name needs to be between 1 and 17 characters."));
    assert!(Movie::from_csv_to_obj("\"2\",\"x\"").is_err());
}

#[test]
fn from_csv_unreadable_number_falls_back() {
    let c = Card::from_csv_to_obj(
        "\"notanumber\",\"Maria\",\"Pop\",\"1234567890123\",\"1.1.2000\",\"1.1.2000\",\"nan\"",
    )
    .unwrap();
    assert_eq!(c.id(), 0);
    assert_eq!(c.points(), 0);
}

use student_api::date::Date;
use student_api::format::{is_blank_text, is_valid_email, is_valid_phone_number};
use student_api::student::{CreateStudent, Violation};

fn day(y: i32, m: u32, d: u32) -> Date {
    Date::from_ymd(y, m, d).unwrap()
}

fn record() -> CreateStudent {
    CreateStudent {
        name: "Ada".to_string(),
        surname: "Lovelace".to_string(),
        phonenumber: "06.12.34.56.78".to_string(),
        birthday: day(1990, 12, 10),
        email: "ada@example.org".to_string(),
    }
}

#[test]
fn calendar_dates_are_checked() {
    assert_eq!(Date::from_ymd(2024, 2, 29), Some(Date { year: 2024, month: 2, day: 29 }));
    assert_eq!(Date::from_ymd(2023, 2, 29), None);
    assert_eq!(Date::from_ymd(1900, 2, 29), None);
    assert_eq!(Date::from_ymd(2000, 2, 29), Some(Date { year: 2000, month: 2, day: 29 }));
    assert_eq!(Date::from_ymd(2021, 4, 31), None);
    assert_eq!(Date::from_ymd(2021, 13, 1), None);
    assert_eq!(Date::from_ymd(2021, 0, 1), None);
    assert_eq!(Date::from_ymd(2021, 1, 0), None);
    assert_eq!(Date::from_ymd(2021, 12, 31), Some(Date { year: 2021, month: 12, day: 31 }));
}

#[test]
fn dates_compare_by_year_then_month_then_day() {
    assert!(day(2021, 1, 1).is_after(&day(2020, 12, 31)));
    assert!(day(2020, 3, 1).is_after(&day(2020, 2, 29)));
    assert!(day(2020, 3, 2).is_after(&day(2020, 3, 1)));
    assert!(!day(2020, 3, 1).is_after(&day(2020, 3, 1)));
    assert!(!day(2019, 12, 31).is_after(&day(2020, 1, 1)));
}

#[test]
fn email_shapes() {
    for e in ["test@example.com", "test.name@example.co.uk", "user123@sub.domain.info", "a@b.c"] {
        assert!(is_valid_email(e), "{}", e);
    }
    for e in [
        "test@test", "test.com", "test@.com", "@example.com", "test@domain.", "a@@b.com",
        "a@b@c.com", "a.@b.com", "a@b..com", "",
    ] {
        assert!(!is_valid_email(e), "{}", e);
    }
}

#[test]
fn phone_shapes() {
    for p in ["0123456789", "+33123456789", "01 23 45 67 89", "01-23-45-67-89", "+33 (0)1.23.45.67.89"] {
        assert!(is_valid_phone_number(p), "{}", p);
    }
    for p in [
        "123456789", "012345678", "0044123456789", "012345678A", "01 23.45 67 89", "+32123456789",
        "0 123456789", "", "+33 (0)",
    ] {
        assert!(!is_valid_phone_number(p), "{}", p);
    }
}

#[test]
fn blank_means_only_white_space() {
    assert!(is_blank_text(""));
    assert!(is_blank_text(" \t\n\u{a0}\u{3000}"));
    assert!(!is_blank_text("  x "));
}

#[test]
fn valid_record_has_no_violation() {
    let today = day(2024, 6, 1);
    assert_eq!(record().violations_on(&today), vec![]);
    assert_eq!(record().validate_on(&today), Ok(()));
}

#[test]
fn every_broken_rule_is_reported_in_field_order() {
    let rec = CreateStudent {
        name: "  ".to_string(),
        surname: "".to_string(),
        phonenumber: "12345".to_string(),
        birthday: day(2030, 1, 1),
        email: "nobody".to_string(),
    };
    let today = day(2024, 6, 1);
    assert_eq!(
        rec.violations_on(&today),
        vec![
            Violation::EmptyName,
            Violation::EmptySurname,
            Violation::InvalidPhoneNumber,
            Violation::InvalidEmail,
            Violation::BirthdayInFuture,
        ]
    );
    assert_eq!(
        rec.validate_on(&today),
        Err(vec![
            "Name cannot be empty.".to_string(),
            "Surname cannot be empty.".to_string(),
            "Invalid phone number format.".to_string(),
            "Invalid email format.".to_string(),
            "Birthday cannot be in the future.".to_string(),
        ])
    );
}

#[test]
fn emptiness_preempts_format() {
    let mut rec = record();
    rec.phonenumber = "".to_string();
    rec.email = "".to_string();
    assert_eq!(
        rec.validate_on(&day(2024, 6, 1)),
        Err(vec!["Phone number cannot be empty.".to_string(), "Email cannot be empty.".to_string()])
    );
}

#[test]
fn blank_name_and_bad_email_are_both_reported() {
    let mut rec = record();
    rec.name = "".to_string();
    rec.email = "test@domain.".to_string();
    let errors = rec.validate_on(&day(2024, 6, 1)).unwrap_err();
    assert!(errors.contains(&"Name cannot be empty.".to_string()));
    assert!(errors.contains(&"Invalid email format.".to_string()));
    assert_eq!(errors.len(), 2);
}

#[test]
fn validating_twice_gives_the_same_outcome() {
    let mut rec = record();
    rec.surname = " ".to_string();
    let today = day(2024, 6, 1);
    assert_eq!(rec.validate_on(&today), rec.validate_on(&today));
    assert_eq!(record().validate_on(&today), record().validate_on(&today));
}

#[test]
fn birthday_boundary_is_today() {
    let mut rec = record();
    rec.birthday = day(2024, 6, 1);
    assert_eq!(rec.validate_on(&day(2024, 6, 1)), Ok(()));
    assert_eq!(rec.validate_on(&day(2024, 6, 2)), Ok(()));
    assert_eq!(
        rec.validate_on(&day(2024, 5, 31)),
        Err(vec!["Birthday cannot be in the future.".to_string()])
    );
    rec.birthday = day(1, 1, 1);
    assert_eq!(rec.validate_on(&day(2024, 5, 31)), Ok(()));
}

#[test]
fn messages_are_fixed() {
    assert_eq!(Violation::EmptyName.message(), "Name cannot be empty.");
    assert_eq!(Violation::EmptySurname.message(), "Surname cannot be empty.");
    assert_eq!(Violation::EmptyPhoneNumber.message(), "Phone number cannot be empty.");
    assert_eq!(Violation::InvalidPhoneNumber.message(), "Invalid phone number format.");
    assert_eq!(Violation::EmptyEmail.message(), "Email cannot be empty.");
    assert_eq!(Violation::InvalidEmail.message(), "Invalid email format.");
    assert_eq!(Violation::BirthdayInFuture.message(), "Birthday cannot be in the future.");
}

#[test]
fn validate_uses_a_real_calendar_date() {
    let mut rec = record();
    rec.birthday = day(9999, 12, 31);
    let errors = rec.validate().unwrap_err();
    assert_eq!(errors, vec!["Birthday cannot be in the future.".to_string()]);
}

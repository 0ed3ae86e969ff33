use membership_core::validator::date;
use membership_core::validator::email;
use membership_core::validator::mobile;
use membership_core::validator::not_none;
use membership_core::validator::required_str;
use membership_core::validator::uuid;

#[test]
fn phone_accepts_ten_digits() {
    for v in ["0123456789", "9999999999", "0000000000"] {
        let r = mobile(v, "Phone");
        assert!(r.is_ok());
        assert_eq!(r.unwrap(), v);
    }
}

#[test]
fn phone_rejects_wrong_length_or_nondigits() {
    for v in ["", "012345678", "01234567890", "01234s6789", "12345 6789", "123-456-78"] {
        let r = mobile(v, "Phone");
        assert!(r.is_err(), "accepted {:?}", v);
        let e = r.unwrap_err();
        assert_eq!(e.code, 1002);
        assert_eq!(e.status, 422);
        assert_eq!(e.message, "Phone validation failed");
    }
}

#[test]
fn required_str_accepts_nonblank() {
    let r = required_str("  x ", "Name");
    assert_eq!(r.unwrap(), "  x ");
}

#[test]
fn required_str_rejects_blank() {
    for v in ["", "   ", "\t\n", "\u{00a0}"] {
        let r = required_str(v, "First Name");
        assert!(r.is_err(), "accepted {:?}", v);
        let e = r.unwrap_err();
        assert_eq!(e.code, 1002);
        assert_eq!(e.status, 422);
        assert_eq!(e.message, "First Name is required");
    }
}

#[test]
fn email_accepts_permissive_shapes() {
    for v in [
        "a@b.c",
        "first.last+tag@ex-1.co.uk",
        "A_B-9@D9.x.y.z",
        "x@y.c-om",
    ] {
        let r = email(v, "Email");
        assert!(r.is_ok(), "rejected {:?}", v);
        assert_eq!(r.unwrap(), v);
    }
}

#[test]
fn email_rejects_malformed() {
    for v in [
        "",
        "a",
        "a@b",
        "@b.c",
        "a@.c",
        "a@b.",
        "a b@x.com",
        "a@x_y.com",
        "a@@b.c",
        "a@b@c.d",
    ] {
        let r = email(v, "Email");
        assert!(r.is_err(), "accepted {:?}", v);
        let e = r.unwrap_err();
        assert_eq!(e.code, 1002);
        assert_eq!(e.message, "Email validation failed");
    }
}

#[test]
fn uuid_accepts_canonical_grouping_any_case() {
    for v in [
        "123e4567-e89b-12d3-a456-426614174000",
        "123E4567-E89B-12D3-A456-426614174000",
        "00000000-0000-0000-0000-000000000000",
    ] {
        let r = uuid(v, "ID");
        assert!(r.is_ok(), "rejected {:?}", v);
        assert_eq!(r.unwrap(), v);
    }
}

#[test]
fn uuid_rejects_other_shapes() {
    for v in [
        "",
        "123e4567e89b12d3a456426614174000",
        "123e4567-e89b-12d3-a456-42661417400",
        "123e4567-e89b-12d3-a456-4266141740000",
        "123g4567-e89b-12d3-a456-426614174000",
        "123e4567_e89b_12d3_a456_426614174000",
    ] {
        let r = uuid(v, "ID");
        assert!(r.is_err(), "accepted {:?}", v);
        let e = r.unwrap_err();
        assert_eq!(e.code, 1002);
        assert_eq!(e.message, "ID is invalid");
    }
}

#[test]
fn date_accepts_real_calendar_dates() {
    let d = date("2020-02-29", "Date").unwrap();
    assert_eq!(d.year, 2020);
    assert_eq!(d.month, 2);
    assert_eq!(d.day, 29);
    let d = date("1999-12-31", "Date").unwrap();
    assert_eq!((d.year, d.month, d.day), (1999, 12, 31));
    assert!(date("2000-02-29", "Date").is_ok());
    assert!(date("1900-02-28", "Date").is_ok());
}

#[test]
fn date_rejects_bad_shapes_and_impossible_days() {
    for v in [
        "",
        "2020-1-01",
        "20-01-01",
        "2020/01/01",
        "2020-13-01",
        "2020-00-10",
        "2020-02-30",
        "2021-02-29",
        "1900-02-29",
        "2020-04-31",
        "2020-01-00",
    ] {
        let r = date(v, "Date Joined");
        assert!(r.is_err(), "accepted {:?}", v);
        let e = r.unwrap_err();
        assert_eq!(e.code, 1002);
        assert_eq!(e.message, "Date Joined validation failed");
    }
}

#[test]
fn not_none_distinguishes_presence() {
    assert!(not_none(Some(1u32), "Field").is_ok());
    let e = not_none(None::<u32>, "Field").unwrap_err();
    assert_eq!(e.code, 1002);
    assert_eq!(e.status, 422);
    assert_eq!(e.message, "Field cannot be empty");
}

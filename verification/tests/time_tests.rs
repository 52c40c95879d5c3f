use relayctl::text::{padded_dec, str_eq, u64_dec};
use relayctl::time::Time;

#[test]
fn renders_epoch_start_in_wib() {
    assert_eq!(Time::new(0).to_text(), "1970-01-01 07:00:00 WIB");
}

#[test]
fn renders_recent_timestamps() {
    assert_eq!(Time::new(1700000000).to_text(), "2023-11-15 05:13:20 WIB");
    assert_eq!(Time::new(1700000060).to_text(), "2023-11-15 05:14:20 WIB");
}

#[test]
fn renders_times_across_a_day_boundary() {
    assert_eq!(Time::new(59).to_text(), "1970-01-01 07:00:59 WIB");
    assert_eq!(Time::new(60).to_text(), "1970-01-01 07:01:00 WIB");
    assert_eq!(Time::new(86399).to_text(), "1970-01-02 06:59:59 WIB");
}

#[test]
fn renders_leap_and_century_rules() {
    // 2000 is a leap year, 2100 is not
    assert_eq!(Time::new(951868800).to_text(), "2000-03-01 07:00:00 WIB");
    assert_eq!(Time::new(4102444800).to_text(), "2100-01-01 07:00:00 WIB");
}

#[test]
fn leap_year_rule() {
    assert!(Time::is_leap_year(2024));
    assert!(Time::is_leap_year(2000));
    assert!(!Time::is_leap_year(2100));
    assert!(!Time::is_leap_year(1900));
    assert!(!Time::is_leap_year(2023));
    assert!(Time::is_leap_year(400));
}

#[test]
fn day_of_year_conversion() {
    assert_eq!(Time::day_of_year_to_date(2024, 0), (1, 1));
    assert_eq!(Time::day_of_year_to_date(2024, 59), (2, 29));
    assert_eq!(Time::day_of_year_to_date(2023, 59), (3, 1));
    assert_eq!(Time::day_of_year_to_date(2023, 364), (12, 31));
    assert_eq!(Time::day_of_year_to_date(2024, 365), (12, 31));
}

#[test]
fn seconds_split_into_hms() {
    assert_eq!(Time::seconds_to_hms(0), (0, 0, 0));
    assert_eq!(Time::seconds_to_hms(86399), (23, 59, 59));
    assert_eq!(Time::seconds_to_hms(3661), (1, 1, 1));
}

#[test]
fn decimal_rendering() {
    assert_eq!(u64_dec(0), "0");
    assert_eq!(u64_dec(907), "907");
    assert_eq!(u64_dec(u64::MAX), "18446744073709551615");
    assert_eq!(padded_dec(7, 2), "07");
    assert_eq!(padded_dec(7, 4), "0007");
    assert_eq!(padded_dec(1234, 2), "1234");
    assert_eq!(padded_dec(0, 1), "0");
}

#[test]
fn string_equality_by_characters() {
    assert!(str_eq("", ""));
    assert!(str_eq("pompa_air", "pompa_air"));
    assert!(!str_eq("pompa_air", "pompa_ai"));
    assert!(!str_eq("a", "b"));
    assert!(str_eq("héllo", "héllo"));
}

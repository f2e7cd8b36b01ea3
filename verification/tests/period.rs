use sarchive::clock::{timestamp_now, today};
use sarchive::digits::{render_decimal, render_fixed};
use sarchive::paths::{append, duplicate, file_name, join};
use sarchive::period::{LocalDate, Period};

#[test]
fn bucket_names_per_period() {
    let day = LocalDate::from_calendar(2024, 3, 7).unwrap();
    assert_eq!(Period::Undated.bucket(&day), b"".to_vec());
    assert_eq!(Period::Yearly.bucket(&day), b"2024".to_vec());
    assert_eq!(Period::Monthly.bucket(&day), b"202403".to_vec());
    assert_eq!(Period::Daily.bucket(&day), b"20240307".to_vec());
}

#[test]
fn bucket_names_at_the_ends_of_the_range() {
    let first = LocalDate::from_calendar(0, 1, 1).unwrap();
    let last = LocalDate::from_calendar(9999, 12, 31).unwrap();
    assert_eq!(Period::Daily.bucket(&first), b"00000101".to_vec());
    assert_eq!(Period::Daily.bucket(&last), b"99991231".to_vec());
}

#[test]
fn dates_outside_the_calendar_are_refused() {
    assert_eq!(
        LocalDate::from_calendar(2024, 3, 7),
        Some(LocalDate { year: 2024, month: 3, day: 7 })
    );
    assert_eq!(LocalDate::from_calendar(-1, 3, 7), None);
    assert_eq!(LocalDate::from_calendar(10000, 3, 7), None);
    assert_eq!(LocalDate::from_calendar(2024, 0, 7), None);
    assert_eq!(LocalDate::from_calendar(2024, 13, 7), None);
    assert_eq!(LocalDate::from_calendar(2024, 3, 0), None);
    assert_eq!(LocalDate::from_calendar(2024, 3, 32), None);
}

#[test]
fn fixed_width_rendering() {
    assert_eq!(render_fixed(7, 2), b"07".to_vec());
    assert_eq!(render_fixed(2024, 4), b"2024".to_vec());
    assert_eq!(render_fixed(12345, 4), b"2345".to_vec());
    assert_eq!(render_fixed(5, 0), b"".to_vec());
}

#[test]
fn decimal_rendering() {
    assert_eq!(render_decimal(0), b"0".to_vec());
    assert_eq!(render_decimal(9), b"9".to_vec());
    assert_eq!(render_decimal(10), b"10".to_vec());
    assert_eq!(render_decimal(4294967295), b"4294967295".to_vec());
}

#[test]
fn joining_paths() {
    assert_eq!(join(&b"/a".to_vec(), &b"b".to_vec()), b"/a/b".to_vec());
    assert_eq!(join(&b"/a/".to_vec(), &b"b".to_vec()), b"/a/b".to_vec());
    assert_eq!(join(&b"".to_vec(), &b"b".to_vec()), b"b".to_vec());
    assert_eq!(join(&b"/".to_vec(), &b"b".to_vec()), b"/b".to_vec());
}

#[test]
fn final_component_of_a_path() {
    assert_eq!(file_name(&b"/spool/shard.4/42/script.sh".to_vec()), b"script.sh".to_vec());
    assert_eq!(file_name(&b"script.sh".to_vec()), b"script.sh".to_vec());
    assert_eq!(file_name(&b"/spool/shard.4/42/".to_vec()), b"".to_vec());
    assert_eq!(file_name(&b"".to_vec()), b"".to_vec());
}

#[test]
fn appending_and_copying_bytes() {
    let mut out = b"ab".to_vec();
    append(&mut out, &b"cd".to_vec());
    assert_eq!(out, b"abcd".to_vec());
    assert_eq!(duplicate(&out), b"abcd".to_vec());
}

#[test]
fn today_agrees_with_the_local_clock() {
    let before = chrono::Local::now().format("%Y%m%d").to_string();
    let day = today().unwrap();
    let after = chrono::Local::now().format("%Y%m%d").to_string();
    let got = String::from_utf8(Period::Daily.bucket(&day)).unwrap();
    assert!(got == before || got == after);
    assert!(1 <= day.month && day.month <= 12);
    assert!(1 <= day.day && day.day <= 31);
}

#[test]
fn timestamp_agrees_with_the_system_clock() {
    let before = std::time::SystemTime::now()
        .duration_since(std::time::UNIX_EPOCH)
        .unwrap()
        .as_secs() as i64;
    let got = timestamp_now();
    let after = std::time::SystemTime::now()
        .duration_since(std::time::UNIX_EPOCH)
        .unwrap()
        .as_secs() as i64;
    assert!(before <= got && got <= after);
}

use sarchive::destination::{place, resolve, resolve_now, ArchiveError, ArchiveTarget};
use sarchive::period::{LocalDate, Period};

fn bytes(text: &str) -> Vec<u8> {
    text.as_bytes().to_vec()
}

fn date(year: i32, month: u32, day: u32) -> LocalDate {
    LocalDate::from_calendar(year, month, day).unwrap()
}

fn target(directory: &str, file: &str) -> ArchiveTarget {
    ArchiveTarget {
        directory: bytes(directory),
        file: bytes(file),
        staging: bytes(&format!("{}.part", file)),
    }
}

#[test]
fn daily_event_lands_in_the_bucket_of_its_day() {
    let out = resolve(
        &bytes("/archive"),
        Period::Daily,
        &date(2024, 3, 7),
        &bytes("/spool/shard.3/17/script.sh"),
    );
    assert_eq!(out, Ok(target("/archive/20240307", "/archive/20240307/script.sh")));
}

#[test]
fn undated_event_lands_directly_under_the_root() {
    let out = resolve(
        &bytes("/archive"),
        Period::Undated,
        &date(2024, 3, 7),
        &bytes("/spool/shard.3/17/script.sh"),
    );
    assert_eq!(out, Ok(target("/archive", "/archive/script.sh")));
}

#[test]
fn monthly_event_lands_in_the_bucket_of_its_month() {
    let out = resolve(
        &bytes("/archive"),
        Period::Monthly,
        &date(2025, 4, 19),
        &bytes("/spool/shard.4/42/script.sh"),
    );
    assert_eq!(out, Ok(target("/archive/202504", "/archive/202504/script.sh")));
}

#[test]
fn yearly_event_lands_in_the_bucket_of_its_year() {
    let out = resolve(
        &bytes("/archive"),
        Period::Yearly,
        &date(2025, 12, 31),
        &bytes("/spool/shard.0/1/job"),
    );
    assert_eq!(out, Ok(target("/archive/2025", "/archive/2025/job")));
}

#[test]
fn early_years_are_padded_to_four_digits() {
    let out = resolve(&bytes("a"), Period::Daily, &date(7, 1, 2), &bytes("x"));
    assert_eq!(out, Ok(target("a/00070102", "a/00070102/x")));
}

#[test]
fn root_with_trailing_separator_gets_no_second_one() {
    let out = resolve(&bytes("/archive/"), Period::Yearly, &date(1999, 1, 1), &bytes("d/s"));
    assert_eq!(out, Ok(target("/archive/1999", "/archive/1999/s")));
}

#[test]
fn path_without_file_name_is_refused() {
    let day = date(2024, 3, 7);
    assert_eq!(
        resolve(&bytes("/archive"), Period::Daily, &day, &bytes("/spool/shard.3/17/")),
        Err(ArchiveError::MissingFileName)
    );
    assert_eq!(
        resolve(&bytes("/archive"), Period::Undated, &day, &bytes("")),
        Err(ArchiveError::MissingFileName)
    );
    assert_eq!(
        resolve_now(&bytes("/archive"), Period::Monthly, &bytes("dir/")),
        Err(ArchiveError::MissingFileName)
    );
}

#[test]
fn place_uses_the_bucket_it_is_given() {
    assert_eq!(
        place(&bytes("/archive"), &bytes("197001"), &bytes("/s/shard.1/2/run.sh")),
        Ok(target("/archive/197001", "/archive/197001/run.sh"))
    );
    assert_eq!(
        place(&bytes("/archive"), &bytes(""), &bytes("run.sh")),
        Ok(target("/archive", "/archive/run.sh"))
    );
}

#[test]
fn undated_archive_resolves_without_a_date() {
    let out = resolve_now(&bytes("/archive"), Period::Undated, &bytes("/s/shard.1/2/run.sh"));
    assert_eq!(out, Ok(target("/archive", "/archive/run.sh")));
}

#[test]
fn resolving_now_uses_todays_bucket() {
    let before = chrono::Local::now().format("%Y%m%d").to_string();
    let out = resolve_now(&bytes("/archive"), Period::Daily, &bytes("/s/shard.1/2/run.sh"));
    let after = chrono::Local::now().format("%Y%m%d").to_string();
    let got = out.unwrap();
    let wanted_before = target(
        &format!("/archive/{}", before),
        &format!("/archive/{}/run.sh", before),
    );
    let wanted_after = target(
        &format!("/archive/{}", after),
        &format!("/archive/{}/run.sh", after),
    );
    assert!(got == wanted_before || got == wanted_after);
}

use photo_site::hashing::{hash, ContentHash};
use photo_site::log_404::Log404;
use photo_site::time::CaptureTime;
use photo_site::util::{
    file_prefix, format_datetime, is_uri_idempotent, is_uri_unreserved, markdown_to_html, FormatLevel,
};

#[test]
fn uri_idempotent_accepts_unreserved_characters() {
    assert!(is_uri_idempotent("sunset-2021_v1.final~"));
    assert!(is_uri_idempotent("AZaz09"));
    assert!(is_uri_idempotent(""));
}

#[test]
fn uri_idempotent_rejects_other_characters() {
    assert!(!is_uri_idempotent("my photo"));
    assert!(!is_uri_idempotent("a/b"));
    assert!(!is_uri_idempotent("caf\u{e9}"));
    assert!(!is_uri_idempotent("50%"));
    assert!(!is_uri_idempotent("ok?"));
    assert!(!is_uri_idempotent("trailing "));
}

#[test]
fn unreserved_character_ranges_end_where_they_should() {
    assert!(is_uri_unreserved('A') && is_uri_unreserved('Z'));
    assert!(is_uri_unreserved('a') && is_uri_unreserved('z'));
    assert!(is_uri_unreserved('0') && is_uri_unreserved('9'));
    assert!(!is_uri_unreserved('@') && !is_uri_unreserved('['));
    assert!(!is_uri_unreserved('`') && !is_uri_unreserved('{'));
    assert!(!is_uri_unreserved('/') && !is_uri_unreserved(':'));
}

#[test]
fn format_datetime_at_each_level() {
    let time = CaptureTime::new(2021, 11, 7, 13, 27, 45, -480).unwrap();
    assert_eq!(format_datetime(&time, FormatLevel::Date), "Nov 7, 2021");
    assert_eq!(
        format_datetime(&time, FormatLevel::DateTime),
        "13:27:45 Nov 07 2021 -08:00"
    );
    assert_eq!(format_datetime(&time, FormatLevel::LocalTime), "13:27:45");
    assert_eq!(format_datetime(&time, FormatLevel::Offset), "-08:00");
}

#[test]
fn capture_time_counts_seconds_from_the_epoch() {
    let epoch = CaptureTime::new(1970, 1, 1, 0, 0, 0, 0).unwrap();
    assert_eq!(epoch.unix_seconds(), 0);
    let east = CaptureTime::new(1970, 1, 1, 1, 0, 0, 60).unwrap();
    assert_eq!(east.unix_seconds(), 0);
    let noon = CaptureTime::new(2021, 12, 18, 12, 0, 0, 0).unwrap();
    assert_eq!(noon.unix_seconds(), 1_639_828_800);
    assert_eq!(noon.date().year(), 2021);
    assert_eq!(noon.date().month(), 12);
    assert_eq!(noon.date().day(), 18);
}

#[test]
fn capture_time_exists_on_the_calendar() {
    assert!(CaptureTime::new(2020, 2, 29, 0, 0, 0, 0).is_some());
    assert!(CaptureTime::new(2021, 2, 29, 0, 0, 0, 0).is_none());
    assert!(CaptureTime::new(1900, 2, 29, 0, 0, 0, 0).is_none());
    assert!(CaptureTime::new(2000, 2, 29, 0, 0, 0, 0).is_some());
    assert!(CaptureTime::new(0, 2, 29, 0, 0, 0, 0).is_some());
    assert!(CaptureTime::new(65535, 12, 31, 23, 59, 59, 1439).is_some());
    assert!(CaptureTime::new(2021, 0, 1, 0, 0, 0, 0).is_none());
    assert!(CaptureTime::new(2021, 13, 1, 0, 0, 0, 0).is_none());
    assert!(CaptureTime::new(2021, 4, 31, 0, 0, 0, 0).is_none());
    assert!(CaptureTime::new(2021, 4, 0, 0, 0, 0, 0).is_none());
    assert!(CaptureTime::new(2021, 4, 30, 24, 0, 0, 0).is_none());
    assert!(CaptureTime::new(2021, 4, 30, 23, 60, 0, 0).is_none());
    assert!(CaptureTime::new(2021, 4, 30, 23, 59, 60, 0).is_none());
    assert!(CaptureTime::new(2021, 4, 30, 23, 59, 59, 1440).is_none());
    assert!(CaptureTime::new(2021, 4, 30, 23, 59, 59, -1440).is_none());
    assert!(CaptureTime::new(2021, 4, 30, 23, 59, 59, -1439).is_some());
}

#[test]
fn dates_of_one_day_are_the_same_day() {
    let morning = CaptureTime::new(2021, 12, 18, 6, 0, 0, 0).unwrap();
    let evening = CaptureTime::new(2021, 12, 18, 22, 0, 0, 600).unwrap();
    let next = CaptureTime::new(2021, 12, 19, 0, 0, 0, 0).unwrap();
    assert!(morning.date().same_day(&evening.date()));
    assert!(!morning.date().same_day(&next.date()));
    assert_eq!(morning.date().format("%Y-%m-%d"), "2021-12-18");
    assert_eq!(morning.format("%H:%M:%S"), "06:00:00");
}

#[test]
fn markdown_is_rendered_with_the_extensions() {
    assert_eq!(markdown_to_html("# Title"), "<h1>Title</h1>\n");
    assert_eq!(markdown_to_html("~~gone~~"), "<p><del>gone</del></p>\n");
    assert_eq!(
        markdown_to_html("- [x] done"),
        "<ul>\n<li><input disabled=\"\" type=\"checkbox\" checked=\"\"/>\ndone</li>\n</ul>\n"
    );
    assert_eq!(markdown_to_html(""), "");
}

#[test]
fn hash_is_the_url_safe_sha256() {
    assert_eq!(hash(b""), "47DEQpj8HBSa-_TImW-5JCeuQeRkm5NMpJWZG3hSuFU");
    assert_eq!(hash(b"abc"), "ungWv48Bz-pBQUDeXa4iI7ADYaOWF3qctBD_YfIAFa0");
}

#[test]
fn hash_is_the_same_for_the_same_bytes_and_changes_with_one_byte() {
    let image = vec![7u8; 4096];
    let mut changed = image.clone();
    changed[2048] = 8;
    assert_eq!(hash(&image), hash(&image.clone()));
    assert_ne!(hash(&image), hash(&changed));
    assert_eq!(hash(&image).len(), 43);
    assert!(is_uri_idempotent(&hash(&image)));
}

#[test]
fn only_what_was_not_found_is_logged() {
    assert_eq!(Log404::on_response(200, "/x", None, None, None, None), None);
    assert_eq!(Log404::on_response(500, "/x", Some("r"), Some("a"), Some("b"), Some("c")), None);
    assert_eq!(
        Log404::on_response(404, "/x", None, None, None, None),
        Some("\x1b[33m404:\x1b[0m /x".to_string())
    );
    assert_eq!(
        Log404::on_response(404, "/x", Some("/from"), None, None, None),
        Some("\x1b[33m404:\x1b[0m [/from =>]  /x".to_string())
    );
    assert_eq!(
        Log404::on_response(404, "/x", None, None, None, Some("10.0.0.1")),
        Some("\x1b[33m404:\x1b[0m /x  (by 10.0.0.1)".to_string())
    );
    assert_eq!(
        Log404::on_response(404, "/x", Some("/from"), Some("1.1.1.1"), Some("2.2.2.2"), Some("3.3.3.3")),
        Some("\x1b[33m404:\x1b[0m [/from =>]  /x  (by 1.1.1.1)".to_string())
    );
    assert_eq!(
        Log404::on_response(404, "/x", None, None, Some("2.2.2.2"), Some("3.3.3.3")),
        Some("\x1b[33m404:\x1b[0m /x  (by 2.2.2.2)".to_string())
    );
}

#[test]
fn a_content_hash_has_43_uri_safe_characters() {
    for data in [&b""[..], &b"a"[..], &[0xffu8; 100][..]] {
        let made = ContentHash::of(data);
        assert_eq!(made.as_str(), hash(data));
        assert_eq!(made.as_str().len(), 43);
        assert!(is_uri_idempotent(made.as_str()));
        assert!(!made.as_str().contains('='));
    }
}

#[test]
fn a_date_is_written_as_year_month_and_day() {
    let written = |y: u16, m: u8, d: u8| {
        CaptureTime::new(y, m, d, 0, 0, 0, 0).unwrap().date().format("%Y-%m-%d")
    };
    assert_eq!(written(2021, 12, 18), "2021-12-18");
    assert_eq!(written(2021, 1, 2), "2021-01-02");
    assert_eq!(written(999, 10, 31), "0999-10-31");
    assert_eq!(written(42, 7, 4), "0042-07-04");
    assert_eq!(written(0, 2, 29), "0000-02-29");
    assert_eq!(written(9999, 12, 31), "9999-12-31");
    assert_eq!(written(10000, 1, 1), "+10000-01-01");
    assert_eq!(written(65535, 11, 30), "+65535-11-30");
    let date = CaptureTime::new(2021, 12, 8, 0, 0, 0, 0).unwrap().date();
    assert_eq!(date.format("%-d %B, %Y"), "8 December, 2021");
    assert_eq!(date.format("%b %-d, %Y"), "Dec 8, 2021");
}

fn leap(year: i64) -> bool {
    year % 4 == 0 && (year % 100 != 0 || year % 400 == 0)
}

fn month_days(year: i64, month: i64) -> i64 {
    match month {
        2 => {
            if leap(year) {
                29
            } else {
                28
            }
        }
        4 | 6 | 9 | 11 => 30,
        _ => 31,
    }
}

fn seconds_by_the_calendar(y: i64, m: i64, d: i64, h: i64, mi: i64, s: i64, off: i64) -> i64 {
    let before_year = 365 * y + (y + 3) / 4 - (y + 99) / 100 + (y + 399) / 400;
    let before_month: i64 = (1..m).map(|k| month_days(y, k)).sum();
    (before_year + before_month + (d - 1) - 719528) * 86400 + h * 3600 + mi * 60 + s - off * 60
}

#[test]
fn seconds_are_counted_by_the_calendar_in_every_month() {
    let mut year: i64 = 0;
    while year <= 65535 {
        for month in 1..=12 {
            let last = month_days(year, month);
            for (day, hour, minute, second, offset) in
                [(1, 0, 0, 0, 0), (last, 23, 59, 59, -1439), (last, 12, 30, 15, 1439)]
            {
                let time = CaptureTime::new(
                    year as u16,
                    month as u8,
                    day as u8,
                    hour as u8,
                    minute as u8,
                    second as u8,
                    offset as i16,
                )
                .unwrap();
                assert_eq!(
                    time.unix_seconds(),
                    seconds_by_the_calendar(year, month, day, hour, minute, second, offset),
                );
            }
            assert!(CaptureTime::new(year as u16, month as u8, last as u8 + 1, 0, 0, 0, 0)
                .is_none());
        }
        year += 1;
    }
}

#[test]
fn each_month_is_written_by_its_name() {
    let names = [
        "January",
        "February",
        "March",
        "April",
        "May",
        "June",
        "July",
        "August",
        "September",
        "October",
        "November",
        "December",
    ];
    for (i, name) in names.iter().enumerate() {
        let month = (i + 1) as u8;
        let time = CaptureTime::new(2021, month, 18, 9, 5, 3, 60).unwrap();
        let date = time.date();
        assert_eq!(date.format("%-d %B, %Y"), format!("18 {}, 2021", name));
        assert_eq!(date.format("%b %-d, %Y"), format!("{} 18, 2021", &name[..3]));
        assert_eq!(time.format("%b %-d, %Y"), format!("{} 18, 2021", &name[..3]));
        assert_eq!(
            time.format("%H:%M:%S %b %d %Y %Z"),
            format!("09:05:03 {} 18 2021 +01:00", &name[..3])
        );
    }
}

#[test]
fn the_day_is_padded_only_where_the_pattern_asks_for_it() {
    for day in 1..=31u8 {
        let time = CaptureTime::new(2021, 12, day, 0, 0, 0, 0).unwrap();
        assert_eq!(time.date().format("%-d %B, %Y"), format!("{} December, 2021", day));
        assert_eq!(time.date().format("%b %-d, %Y"), format!("Dec {}, 2021", day));
        assert_eq!(time.date().format("%Y-%m-%d"), format!("2021-12-{:02}", day));
        assert_eq!(
            time.format("%H:%M:%S %b %d %Y %Z"),
            format!("00:00:00 Dec {:02} 2021 +00:00", day)
        );
    }
}

#[test]
fn the_year_has_four_digits_or_a_sign() {
    let name = |y: u16| CaptureTime::new(y, 3, 4, 0, 0, 0, 0).unwrap().date().format("%-d %B, %Y");
    assert_eq!(name(0), "4 March, 0000");
    assert_eq!(name(7), "4 March, 0007");
    assert_eq!(name(999), "4 March, 0999");
    assert_eq!(name(1000), "4 March, 1000");
    assert_eq!(name(9999), "4 March, 9999");
    assert_eq!(name(10000), "4 March, +10000");
    assert_eq!(name(65535), "4 March, +65535");
    let full = CaptureTime::new(12345, 3, 4, 1, 2, 3, -90).unwrap();
    assert_eq!(full.format("%H:%M:%S %b %d %Y %Z"), "01:02:03 Mar 04 +12345 -01:30");
    assert_eq!(full.format("%b %-d, %Y"), "Mar 4, +12345");
}

#[test]
fn the_time_of_day_is_written_in_two_digits_each() {
    for hour in 0..24u8 {
        for minute in 0..60u8 {
            let second = (hour + minute) % 60;
            let time = CaptureTime::new(2021, 6, 1, hour, minute, second, 0).unwrap();
            assert_eq!(
                time.format("%H:%M:%S"),
                format!("{:02}:{:02}:{:02}", hour, minute, second)
            );
        }
    }
}

#[test]
fn every_offset_is_named_by_its_sign_hours_and_minutes() {
    for offset in -1439..=1439i16 {
        let time = CaptureTime::new(2021, 6, 1, 12, 0, 0, offset).unwrap();
        let sign = if offset < 0 { '-' } else { '+' };
        let size = offset.abs();
        assert_eq!(time.format("%Z"), format!("{}{:02}:{:02}", sign, size / 60, size % 60));
    }
    let zero = CaptureTime::new(2021, 6, 1, 12, 0, 0, 0).unwrap();
    assert_eq!(zero.format("%Z"), "+00:00");
    let east = CaptureTime::new(2021, 6, 1, 12, 0, 0, 345).unwrap();
    assert_eq!(east.format("%Z"), "+05:45");
    let west = CaptureTime::new(2021, 6, 1, 12, 0, 0, -1439).unwrap();
    assert_eq!(west.format("%Z"), "-23:59");
}

#[test]
fn a_file_is_named_by_what_stands_before_its_first_dot() {
    assert_eq!(file_prefix("IMG_0001.jpg"), "IMG_0001");
    assert_eq!(file_prefix("archive.tar.gz"), "archive");
    assert_eq!(file_prefix("first-post.md"), "first-post");
    assert_eq!(file_prefix("no_extension"), "no_extension");
    assert_eq!(file_prefix("ends."), "ends");
    assert_eq!(file_prefix("a..b"), "a");
    assert_eq!(file_prefix("x"), "x");
    assert_eq!(file_prefix(""), "");
    assert_eq!(file_prefix("ünïcode.jpeg"), "ünïcode");
}

#[test]
fn a_dot_that_a_file_name_begins_with_is_kept() {
    assert_eq!(file_prefix(".hidden"), ".hidden");
    assert_eq!(file_prefix(".hidden.jpg"), ".hidden");
    assert_eq!(file_prefix(".a.b.c"), ".a");
    assert_eq!(file_prefix("."), ".");
}

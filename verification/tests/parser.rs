use chrono::{Datelike, Local, TimeZone, Timelike};
use log_sentinel::address::IpAddress;
use log_sentinel::parser::{
    extract_civil_time, extract_ip, extract_ts, extract_user, month_from_name, parse_line,
    read_civil_time,
};
use log_sentinel::time::{
    civil_seconds_of, local_timestamp, CivilTime, LocalInstant, LocalTime, Timestamp,
};

fn local(ts: Timestamp) -> chrono::DateTime<Local> {
    Local.timestamp_opt(ts.secs, ts.nanos).single().unwrap()
}

#[test]
fn test_parse_auth_failure() {
    let line = "Jan  2 15:04:05 server sshd[1234]: Failed password for admin from 192.168.1.100 port 22 ssh2";
    let event = parse_line(line).unwrap();

    assert!(event.ts.is_some());
    assert_eq!(event.ip, Some(IpAddress::parse("192.168.1.100").unwrap()));
    assert_eq!(event.ip, Some(IpAddress::V4(0xC0A8_0164)));
    assert_eq!(event.user, Some("admin".to_string()));
    assert!(event.raw.contains("Failed password"));
}

#[test]
fn test_parse_ssh_success() {
    let line = "Jan  2 15:10:23 server sshd[5678]: Accepted publickey for alice from 10.0.0.50 port 54321 ssh2";
    let event = parse_line(line).unwrap();

    assert!(event.ts.is_some());
    assert_eq!(event.ip, Some(IpAddress::parse("10.0.0.50").unwrap()));
    assert_eq!(event.ip, Some(IpAddress::V4(0x0A00_0032)));
    assert_eq!(event.user, Some("alice".to_string()));
}

#[test]
fn test_parse_sudo() {
    let line = "Jan  2 16:20:15 server sudo: alice : TTY=pts/0 ; PWD=/home/alice ; USER=root ; COMMAND=/bin/cat /etc/shadow";
    let event = parse_line(line).unwrap();

    assert!(event.ts.is_some());
    // The account the command runs as, not the one that asked for it.
    assert_eq!(event.user, Some("root".to_string()));
    assert!(event.raw.contains("sudo"));
}

#[test]
fn test_timestamp_parsing() {
    let line = "Jan  2 15:04:05 server message";
    let ts = extract_ts(line);

    assert!(ts.is_some());
    let dt = local(ts.unwrap());
    assert_eq!(dt.month(), 1);
    assert_eq!(dt.day(), 2);
    assert_eq!(dt.hour(), 15);
    assert_eq!(dt.minute(), 4);
    assert_eq!(dt.second(), 5);
}

#[test]
fn test_ip_extraction() {
    let line = "Failed password from 192.168.1.100 port 22";
    let ip = extract_ip(line);
    assert_eq!(ip, Some(IpAddress::parse("192.168.1.100").unwrap()));
    assert_eq!(ip, Some(IpAddress::V4(0xC0A8_0164)));
}

#[test]
fn test_user_extraction_multiple_patterns() {
    let tests = vec![
        ("Failed password for admin from", "admin"),
        ("Accepted publickey for alice from", "alice"),
        ("invalid user hacker from", "hacker"),
        ("USER=root COMMAND=", "root"),
    ];

    for (line, expected) in tests {
        let user = extract_user(line);
        assert_eq!(user, Some(expected.to_string()));
    }
}

#[test]
fn parse_keeps_the_line_and_reads_nothing_from_noise() {
    let event = parse_line("nothing of interest here").unwrap();
    assert_eq!(event.raw, "nothing of interest here");
    assert_eq!(event.ts, None);
    assert_eq!(event.ip, None);
    assert_eq!(event.user, None);
}

#[test]
fn parse_of_the_empty_line_succeeds() {
    let event = parse_line("").unwrap();
    assert_eq!(event.raw, "");
    assert_eq!(event.ts, None);
    assert_eq!(event.ip, None);
    assert_eq!(event.user, None);
}

#[test]
fn timestamp_has_the_current_year() {
    let ts = extract_ts("Mar 14 01:02:03 host app: hello").unwrap();
    let dt = local(ts);
    assert_eq!(dt.year(), Local::now().year());
    assert_eq!(dt.month(), 3);
    assert_eq!(dt.day(), 14);
    assert_eq!(dt.hour(), 1);
    assert_eq!(dt.minute(), 2);
    assert_eq!(dt.second(), 3);
    assert_eq!(ts.nanos, 0);
}

#[test]
fn timestamp_with_single_space_before_the_day() {
    let ts = extract_ts("Jan 2 15:04:05 server sshd[1]: hello").unwrap();
    let dt = local(ts);
    assert_eq!((dt.month(), dt.day()), (1, 2));
    assert_eq!((dt.hour(), dt.minute(), dt.second()), (15, 4, 5));
}

#[test]
fn timestamp_must_stand_at_the_start() {
    assert_eq!(extract_ts(" Jan  2 15:04:05 server message"), None);
    assert_eq!(extract_ts("x Jan  2 15:04:05 server message"), None);
}

#[test]
fn timestamp_with_unknown_month_is_absent() {
    assert_eq!(extract_ts("Foo  2 15:04:05 server message"), None);
    assert_eq!(extract_civil_time("Foo  2 15:04:05 server message"), None);
}

#[test]
fn timestamp_with_impossible_day_or_time_is_absent() {
    assert_eq!(extract_ts("Feb 30 15:04:05 server message"), None);
    assert_eq!(extract_ts("Jan  0 15:04:05 server message"), None);
    assert_eq!(extract_ts("Jan  2 24:00:00 server message"), None);
    assert_eq!(extract_ts("Jan  2 23:60:00 server message"), None);
    assert_eq!(extract_ts("Jan  2 23:59:60 server message"), None);
    assert_eq!(extract_ts("Apr 31 10:00:00 server message"), None);
}

#[test]
fn timestamp_needs_two_digits_in_each_time_field() {
    assert_eq!(extract_ts("Jan  2 5:04:05 server message"), None);
}

#[test]
fn civil_time_is_read_field_by_field() {
    assert_eq!(
        extract_civil_time("Dec 31 23:59:58 host x"),
        Some(CivilTime { month: 12, day: 31, hour: 23, minute: 59, second: 58 })
    );
    assert_eq!(
        extract_civil_time("Feb 30 25:61:99 host x"),
        Some(CivilTime { month: 2, day: 30, hour: 25, minute: 61, second: 99 })
    );
    assert_eq!(
        read_civil_time("Sep", "7", "08", "09", "10"),
        Some(CivilTime { month: 9, day: 7, hour: 8, minute: 9, second: 10 })
    );
    assert_eq!(read_civil_time("Sept", "7", "08", "09", "10"), None);
    assert_eq!(read_civil_time("Sep", "x", "08", "09", "10"), None);
    assert_eq!(read_civil_time("Sep", "7", "", "09", "10"), None);
    assert_eq!(read_civil_time("Sep", "7", "08", "-9", "10"), None);
    assert_eq!(read_civil_time("Sep", "7", "08", "09", "1 0"), None);
}

#[test]
fn month_names() {
    let names = [
        "Jan", "Feb", "Mar", "Apr", "May", "Jun", "Jul", "Aug", "Sep", "Oct", "Nov", "Dec",
    ];
    for (i, name) in names.iter().enumerate() {
        assert_eq!(month_from_name(name), Some(i as u32 + 1));
    }
    assert_eq!(month_from_name("jan"), None);
    assert_eq!(month_from_name("JAN"), None);
    assert_eq!(month_from_name(""), None);
    assert_eq!(month_from_name("Janu"), None);
}

#[test]
fn local_timestamp_of_given_year() {
    let fields = CivilTime { month: 6, day: 15, hour: 12, minute: 30, second: 45 };
    let ts = local_timestamp(2021, &fields).unwrap();
    let dt = local(ts);
    assert_eq!((dt.year(), dt.month(), dt.day()), (2021, 6, 15));
    assert_eq!((dt.hour(), dt.minute(), dt.second()), (12, 30, 45));
}

#[test]
fn local_timestamp_knows_leap_years() {
    let feb29 = CivilTime { month: 2, day: 29, hour: 12, minute: 0, second: 0 };
    assert!(local_timestamp(2024, &feb29).is_some());
    assert!(local_timestamp(2000, &feb29).is_some());
    assert_eq!(local_timestamp(2023, &feb29), None);
    assert_eq!(local_timestamp(1900, &feb29), None);
    let noon = CivilTime { month: 1, day: 1, hour: 12, minute: 0, second: 0 };
    assert_eq!(local_timestamp(262143, &noon), None);
    assert_eq!(local_timestamp(-262144, &noon), None);
    let month13 = CivilTime { month: 13, day: 1, hour: 12, minute: 0, second: 0 };
    assert_eq!(local_timestamp(2024, &month13), None);
    let month0 = CivilTime { month: 0, day: 1, hour: 12, minute: 0, second: 0 };
    assert_eq!(local_timestamp(2024, &month0), None);
}

#[test]
fn first_address_in_the_line_is_used() {
    assert_eq!(
        extract_ip("from 10.1.2.3 to 192.168.1.100"),
        Some(IpAddress::V4(0x0A01_0203))
    );
}

#[test]
fn address_out_of_range_is_no_address() {
    assert_eq!(extract_ip("from 300.1.2.3 port 22"), None);
    assert_eq!(extract_ip("from 999.999.999.999 then 10.0.0.1"), None);
    assert_eq!(extract_ip("from 01.2.3.4 port 22"), None);
}

#[test]
fn address_is_found_inside_longer_digit_runs() {
    // The leftmost match starts at the second digit.
    assert_eq!(extract_ip("x1234.5.6.7y"), Some(IpAddress::V4(0xEA05_0607)));
}

#[test]
fn ipv6_address_in_full_form_is_read() {
    assert_eq!(
        extract_ip("from 2001:db8:0:0:0:ff00:42:8329 port 22"),
        Some(IpAddress::V6(0x2001_0db8_0000_0000_0000_ff00_0042_8329))
    );
    assert_eq!(
        extract_ip("from 2001:0DB8:0000:0000:0000:FF00:0042:8329 port 22"),
        Some(IpAddress::V6(0x2001_0db8_0000_0000_0000_ff00_0042_8329))
    );
}

#[test]
fn ipv6_is_not_tried_when_a_dotted_quad_is_found() {
    assert_eq!(extract_ip("bad 300.1.2.3 good 0:0:0:0:0:0:0:1"), None);
    assert_eq!(extract_ip("999.1.1.1 2001:db8:0:0:0:0:0:1"), None);
    assert_eq!(
        extract_ip("10.1.1.1 2001:db8:0:0:0:0:0:1"),
        Some(IpAddress::V4(0x0A01_0101))
    );
    assert_eq!(
        extract_ip("2001:db8:0:0:0:0:0:1 then 10.1.1.1"),
        Some(IpAddress::V4(0x0A01_0101))
    );
    assert_eq!(
        extract_ip("only 2001:db8:0:0:0:0:0:1 here"),
        Some(IpAddress::V6(0x2001_0db8_0000_0000_0000_0000_0000_0001))
    );
}

#[test]
fn shortened_ipv6_is_not_found() {
    assert_eq!(extract_ip("from ::1 port 22"), None);
    assert_eq!(extract_ip("from fe80::1 port 22"), None);
}

#[test]
fn user_patterns_are_tried_in_order() {
    // "Failed password for" comes before "invalid user".
    assert_eq!(
        extract_user("Failed password for invalid user bob from 1.2.3.4"),
        Some("invalid".to_string())
    );
    // "Accepted .. for" comes before "USER=".
    assert_eq!(
        extract_user("USER=root ; Accepted password for carol from 1.2.3.4"),
        Some("carol".to_string())
    );
    // The last phrasing alone.
    assert_eq!(extract_user("session opened for dave from 1.2.3.4"), Some("dave".to_string()));
    assert_eq!(extract_user("no user here"), None);
    assert_eq!(extract_user("Failed password for "), None);
}

#[test]
fn failed_password_line_gives_user_and_address() {
    let users = ["admin", "root", "a.b-c_d", "x"];
    let addresses = [("0.0.0.0", 0u32), ("255.255.255.255", 0xFFFF_FFFF), ("8.8.4.4", 0x0808_0404)];
    for user in users {
        for (text, bits) in addresses {
            let line = format!("sshd[9]: Failed password for {} from {} port 22 ssh2", user, text);
            let event = parse_line(&line).unwrap();
            assert_eq!(event.user, Some(user.to_string()));
            assert_eq!(event.ip, Some(IpAddress::V4(bits)));
            assert_eq!(event.raw, line);
        }
    }
}

#[test]
fn only_a_single_local_time_is_used() {
    let a = LocalInstant { at: Timestamp { secs: 100, nanos: 1 }, offset_secs: 7200 };
    let b = LocalInstant { at: Timestamp { secs: 3700, nanos: 1 }, offset_secs: 3600 };
    assert_eq!(LocalTime::Single(a).single(), Some(a.at));
    assert_eq!(LocalTime::Ambiguous(a, b).single(), None);
    assert_eq!(LocalTime::Missing.single(), None);
}

#[test]
fn chrono_dates_exist_as_the_calendar_says() {
    let exists = |y: i32, m: u32, d: u32| chrono::NaiveDate::from_ymd_opt(y, m, d).is_some();
    assert!(exists(262142, 12, 31));
    assert!(exists(-262143, 1, 1));
    assert!(!exists(262143, 1, 1));
    assert!(!exists(-262144, 12, 31));
    assert!(exists(2024, 2, 29));
    assert!(exists(-4, 2, 29));
    assert!(!exists(2100, 2, 29));
    assert!(exists(2400, 2, 29));
    for (month, days) in [(1, 31), (2, 28), (3, 31), (4, 30), (5, 31), (6, 30), (7, 31), (8, 31), (9, 30), (10, 31), (11, 30), (12, 31)] {
        assert!(exists(2023, month, days));
        assert!(!exists(2023, month, days + 1));
        assert!(exists(2023, month, 1));
        assert!(!exists(2023, month, 0));
    }
    assert!(!exists(2023, 0, 1));
    assert!(!exists(2023, 13, 1));
    let time = |h: u32, m: u32, s: u32| chrono::NaiveTime::from_hms_opt(h, m, s).is_some();
    assert!(time(0, 0, 0));
    assert!(time(23, 59, 59));
    assert!(!time(24, 0, 0));
    assert!(!time(0, 60, 0));
    assert!(!time(0, 0, 60));
}

fn chrono_seconds(y: i32, m: u32, d: u32, h: u32, mi: u32, sec: u32) -> i128 {
    chrono::NaiveDate::from_ymd_opt(y, m, d)
        .unwrap()
        .and_hms_opt(h, mi, sec)
        .unwrap()
        .and_utc()
        .timestamp() as i128
}

#[test]
fn civil_seconds_of_known_dates() {
    let at = |month, day, hour, minute, second| CivilTime { month, day, hour, minute, second };
    assert_eq!(civil_seconds_of(1970, &at(1, 1, 0, 0, 0)), 0);
    assert_eq!(civil_seconds_of(1970, &at(1, 1, 0, 0, 1)), 1);
    assert_eq!(civil_seconds_of(1970, &at(1, 2, 0, 0, 0)), 86_400);
    assert_eq!(civil_seconds_of(1969, &at(12, 31, 23, 59, 59)), -1);
    assert_eq!(civil_seconds_of(2000, &at(1, 1, 0, 0, 0)), 946_684_800);
    assert_eq!(civil_seconds_of(2001, &at(9, 9, 1, 46, 40)), 1_000_000_000);
    assert_eq!(civil_seconds_of(2015, &at(5, 15, 0, 0, 0)), 1_431_648_000);
    assert_eq!(civil_seconds_of(2024, &at(2, 29, 12, 0, 0)), 1_709_208_000);
    assert_eq!(civil_seconds_of(2038, &at(1, 19, 3, 14, 7)), 2_147_483_647);
}

#[test]
fn civil_seconds_agree_with_chrono() {
    let years = [
        -262143, -100_000, -401, -400, -399, -101, -100, -99, -5, -4, -3, -1, 0, 1, 2, 3, 4, 5, 99,
        100, 101, 399, 400, 401, 1582, 1600, 1699, 1700, 1900, 1901, 1968, 1969, 1970, 1971, 1972,
        1973, 1999, 2000, 2001, 2023, 2024, 2025, 2026, 2027, 2028, 2100, 2400, 9999, 100_000,
        262142,
    ];
    for year in years {
        let leap = year % 4 == 0 && (year % 100 != 0 || year % 400 == 0);
        let lengths = [31, if leap { 29 } else { 28 }, 31, 30, 31, 30, 31, 31, 30, 31, 30, 31];
        for month in 1..=12u32 {
            for day in [1, 2, 15, 28, lengths[month as usize - 1]] {
                for (h, mi, sec) in [(0, 0, 0), (15, 4, 5), (23, 59, 59)] {
                    let fields = CivilTime { month, day, hour: h, minute: mi, second: sec };
                    assert_eq!(
                        civil_seconds_of(year, &fields),
                        chrono_seconds(year, month, day, h, mi, sec),
                        "{} {:?}",
                        year,
                        fields
                    );
                }
            }
        }
    }
}

#[test]
fn civil_seconds_of_fields_that_do_not_exist() {
    let odd = CivilTime { month: 13, day: 0, hour: 30, minute: 70, second: 80 };
    // A month that does not exist counts as no days; the rest is added up.
    assert_eq!(civil_seconds_of(1970, &odd), -86_400 + 30 * 3_600 + 70 * 60 + 80);
    let huge = CivilTime {
        month: u32::MAX,
        day: u32::MAX,
        hour: u32::MAX,
        minute: u32::MAX,
        second: u32::MAX,
    };
    let m = u32::MAX as i128;
    let new_year = CivilTime { month: 1, day: 1, hour: 0, minute: 0, second: 0 };
    assert_eq!(
        civil_seconds_of(i32::MAX, &huge),
        civil_seconds_of(i32::MAX, &new_year) + (m - 1) * 86_400 + m * 3_600 + m * 60 + m
    );
    assert_eq!(
        civil_seconds_of(i32::MIN, &new_year),
        civil_seconds_of(-2_147_483_600, &new_year) - 48 * 365 * 86_400 - 12 * 86_400
    );
}

fn local_offset(ts: Timestamp) -> i128 {
    local(ts).offset().local_minus_utc() as i128
}

#[test]
fn local_timestamp_shows_the_fields_in_the_local_zone() {
    for year in [1971, 1999, 2021, 2024, 2030] {
        for (month, day) in [(1, 2), (2, 28), (6, 15), (7, 4), (11, 30), (12, 31)] {
            for (hour, minute, second) in [(0, 0, 0), (12, 30, 45), (15, 4, 5), (23, 59, 59)] {
                let fields = CivilTime { month, day, hour, minute, second };
                if let Some(ts) = local_timestamp(year, &fields) {
                    let offset = local_offset(ts);
                    assert!(-86_400 < offset && offset < 86_400);
                    assert_eq!(ts.nanos, 0);
                    assert_eq!(ts.secs as i128 + offset, civil_seconds_of(year, &fields));
                    let dt = local(ts);
                    assert_eq!((dt.year(), dt.month(), dt.day()), (year, month, day));
                    assert_eq!((dt.hour(), dt.minute(), dt.second()), (hour, minute, second));
                }
            }
        }
    }
    // Noon on a winter day is shown once in every zone.
    let fields = CivilTime { month: 1, day: 15, hour: 12, minute: 0, second: 0 };
    assert!(local_timestamp(2024, &fields).is_some());
}

#[test]
fn extracted_time_shows_the_fields_of_the_line() {
    let line = "Jan 2 15:04:05 server sshd[1]: Failed password for admin from 192.168.1.100 port 22 ssh2";
    let ts = extract_ts(line).unwrap();
    let fields = extract_civil_time(line).unwrap();
    assert_eq!(fields, CivilTime { month: 1, day: 2, hour: 15, minute: 4, second: 5 });
    let year = Local::now().year();
    assert_eq!(ts.nanos, 0);
    assert_eq!(ts.secs as i128 + local_offset(ts), civil_seconds_of(year, &fields));
    assert_eq!(parse_line(line).unwrap().ts, Some(ts));
}

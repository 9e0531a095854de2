use chrono::{DateTime, Duration, Local};
use log_sentinel::address::IpAddress;
use log_sentinel::alert::{Alert, Severity};
use log_sentinel::event::LogEvent;
use log_sentinel::parser::parse_line;
use log_sentinel::rules::Engine;
use log_sentinel::time::Timestamp;

fn stamp(dt: DateTime<Local>) -> Timestamp {
    Timestamp { secs: dt.timestamp(), nanos: dt.timestamp_subsec_nanos() }
}

fn brute_force_alerts(alerts: &[Alert]) -> Vec<&Alert> {
    alerts.iter().filter(|a| a.rule_id == "brute_force").collect()
}

fn failure(ip: IpAddress, at: DateTime<Local>) -> LogEvent {
    LogEvent {
        ts: Some(stamp(at)),
        ip: Some(ip),
        user: Some("admin".to_string()),
        raw: "Failed password for admin".to_string(),
    }
}

#[test]
fn test_brute_force_detection() {
    // 8 auth failures from the same IP within 60 seconds raise a
    // brute_force alert.
    let test_ip = IpAddress::parse("192.168.1.100").unwrap();
    let now = Local::now();

    let mut failure_events = Vec::new();
    for i in 0..8 {
        let event = LogEvent {
            ts: Some(stamp(now + Duration::seconds(i * 7))), // 7 seconds apart
            ip: Some(test_ip),
            user: Some("admin".to_string()),
            raw: format!("Jan 2 15:00:{:02} server sshd[100{}]: Failed password for admin from 192.168.1.100 port 22 ssh2", i * 7, i),
        };
        failure_events.push(event);
    }

    let mut engine = Engine::new(8, 60);
    let mut alerts = Vec::new();
    let mut per_event = Vec::new();
    for event in &failure_events {
        let event_alerts = engine.process(event);
        per_event.push(event_alerts.len());
        alerts.extend(event_alerts);
    }

    let brute = brute_force_alerts(&alerts);
    assert_eq!(brute.len(), 1);
    assert_eq!(brute[0].ip, Some(test_ip));
    assert_eq!(per_event, vec![1, 1, 1, 1, 1, 1, 1, 2]);

    assert_eq!(failure_events.len(), 8);
    assert!(failure_events.iter().all(|e| e.ip == Some(test_ip)));

    let first_ts = failure_events.first().unwrap().ts.unwrap();
    let last_ts = failure_events.last().unwrap().ts.unwrap();
    let span = last_ts.secs - first_ts.secs;

    assert!(span < 60, "All failures should be within 60 seconds");
}

#[test]
fn test_brute_force_cooldown() {
    // After a brute_force alert there is no other alert for the same IP
    // within 5 minutes: 8 failures, then 5 more failures 2 minutes later,
    // give only one brute_force alert.
    let test_ip = IpAddress::parse("192.168.1.100").unwrap();
    let now = Local::now();
    let mut engine = Engine::new(8, 60);
    let mut alerts = Vec::new();

    for i in 0..8 {
        alerts.extend(engine.process(&failure(test_ip, now + Duration::seconds(i * 5))));
    }
    assert_eq!(brute_force_alerts(&alerts).len(), 1);

    for i in 0..5 {
        alerts.extend(engine.process(&failure(
            test_ip,
            now + Duration::seconds(120 + i * 5),
        )));
    }
    assert_eq!(brute_force_alerts(&alerts).len(), 1);
    assert_eq!(alerts.iter().filter(|a| a.rule_id == "auth_failure").count(), 13);
}

#[test]
fn test_different_ips_separate_tracking() {
    // Failures from different IPs are tracked separately.
    let ip1 = IpAddress::parse("192.168.1.100").unwrap();
    let ip2 = IpAddress::parse("192.168.1.101").unwrap();
    let now = Local::now();

    let mut events = Vec::new();

    // 4 failures from IP1
    for i in 0..4 {
        events.push(LogEvent {
            ts: Some(stamp(now + Duration::seconds(i * 5))),
            ip: Some(ip1),
            user: Some("admin".to_string()),
            raw: format!("Failed password from {}", ip1.to_text()),
        });
    }

    // 4 failures from IP2
    for i in 0..4 {
        events.push(LogEvent {
            ts: Some(stamp(now + Duration::seconds(i * 5))),
            ip: Some(ip2),
            user: Some("admin".to_string()),
            raw: format!("Failed password from {}", ip2.to_text()),
        });
    }

    // With threshold=8, neither IP triggers alone.
    let mut engine = Engine::new(8, 60);
    let mut alerts = Vec::new();
    for event in &events {
        alerts.extend(engine.process(event));
    }
    assert_eq!(brute_force_alerts(&alerts).len(), 0);
    assert_eq!(alerts.len(), 8);

    assert_eq!(events.iter().filter(|e| e.ip == Some(ip1)).count(), 4);
    assert_eq!(events.iter().filter(|e| e.ip == Some(ip2)).count(), 4);
    assert_eq!(events[0].raw, "Failed password from 192.168.1.100");
    assert_eq!(events[4].raw, "Failed password from 192.168.1.101");
}

#[test]
fn test_sliding_window() {
    // Old failures outside the window are removed.
    let test_ip = IpAddress::parse("192.168.1.100").unwrap();
    let now = Local::now();

    let mut events = Vec::new();

    // 7 failures, 10 seconds apart
    for i in 0..7 {
        events.push(LogEvent {
            ts: Some(stamp(now + Duration::seconds(i * 10))),
            ip: Some(test_ip),
            user: Some("admin".to_string()),
            raw: format!("Failed password at +{}s", i * 10),
        });
    }

    // The 8th failure at +70s does not trigger brute_force: the first
    // failure (at 0s) is then more than 60 s old.
    events.push(LogEvent {
        ts: Some(stamp(now + Duration::seconds(70))),
        ip: Some(test_ip),
        user: Some("admin".to_string()),
        raw: "Failed password at +70s".to_string(),
    });

    assert_eq!(events.len(), 8);

    let mut engine = Engine::new(8, 60);
    let mut alerts = Vec::new();
    for event in &events {
        alerts.extend(engine.process(event));
    }
    assert_eq!(brute_force_alerts(&alerts).len(), 0);
    assert_eq!(alerts.len(), 8);

    let first = events.first().unwrap().ts.unwrap();
    let last = events.last().unwrap().ts.unwrap();
    let span = last.secs - first.secs;

    assert!(span > 60, "Events should span more than 60 seconds");
}

#[test]
fn one_short_of_the_threshold_gives_no_alert() {
    let ip = IpAddress::V4(0x0A00_0001);
    let now = Local::now();
    let mut engine = Engine::new(8, 60);
    let mut alerts = Vec::new();
    for i in 0..7 {
        alerts.extend(engine.process(&failure(ip, now + Duration::seconds(i))));
    }
    assert_eq!(brute_force_alerts(&alerts).len(), 0);
    assert_eq!(alerts.len(), 7);
}

#[test]
fn a_failure_exactly_one_window_old_still_counts() {
    let ip = IpAddress::V4(0x0A00_0001);
    let now = Local::now();
    let mut engine = Engine::new(3, 60);
    let mut alerts = Vec::new();
    for at in [0, 30, 60] {
        alerts.extend(engine.process(&failure(ip, now + Duration::seconds(at))));
    }
    assert_eq!(brute_force_alerts(&alerts).len(), 1);

    let other = IpAddress::V4(0x0A00_0002);
    let mut late = Vec::new();
    late.extend(engine.process(&failure(other, now)));
    late.extend(engine.process(&failure(other, now + Duration::seconds(30))));
    late.extend(engine.process(&failure(
        other,
        now + Duration::seconds(60) + Duration::nanoseconds(1),
    )));
    assert_eq!(brute_force_alerts(&late).len(), 0);
}

#[test]
fn second_burst_within_five_minutes_gives_no_further_alert() {
    let ip = IpAddress::V4(0xC0A8_0164);
    let now = Local::now();
    let mut engine = Engine::new(8, 60);
    let mut alerts = Vec::new();
    for i in 0..8 {
        alerts.extend(engine.process(&failure(ip, now + Duration::seconds(i))));
    }
    assert_eq!(brute_force_alerts(&alerts).len(), 1);
    // The alert came at +7 s; the second burst runs from +200 s to +207 s.
    for i in 0..8 {
        alerts.extend(engine.process(&failure(ip, now + Duration::seconds(200 + i))));
    }
    assert_eq!(brute_force_alerts(&alerts).len(), 1);
    // Even a far longer burst stays quiet while it lasts less than five
    // minutes from the alert.
    for i in 0..50 {
        alerts.extend(engine.process(&failure(ip, now + Duration::seconds(250 + i))));
    }
    assert_eq!(brute_force_alerts(&alerts).len(), 1);
}

#[test]
fn burst_five_minutes_later_gives_another_alert() {
    let ip = IpAddress::V4(0xC0A8_0164);
    let now = Local::now();
    let mut engine = Engine::new(8, 60);
    let mut alerts = Vec::new();
    for i in 0..8 {
        alerts.extend(engine.process(&failure(ip, now + Duration::seconds(i))));
    }
    // The alert came at +7 s, so +307 s is five minutes later to the second.
    for i in 0..8 {
        alerts.extend(engine.process(&failure(ip, now + Duration::seconds(307 + i))));
    }
    let brute = brute_force_alerts(&alerts);
    assert_eq!(brute.len(), 2);
    assert_eq!(brute[0].ts, Some(stamp(now + Duration::seconds(7))));
    assert_eq!(brute[1].ts, Some(stamp(now + Duration::seconds(314))));
}

#[test]
fn cooldown_ends_at_five_minutes_to_the_nanosecond() {
    let ip = IpAddress::V4(1);
    let at = |secs: i64, nanos: u32| LogEvent {
        ts: Some(Timestamp { secs, nanos }),
        ip: Some(ip),
        user: None,
        raw: "authentication failure".to_string(),
    };
    let mut engine = Engine::new(1, 60);
    assert_eq!(engine.process(&at(1000, 5)).len(), 2);
    assert_eq!(engine.process(&at(1299, 999_999_999)).len(), 1);
    assert_eq!(engine.process(&at(1300, 4)).len(), 1);
    assert_eq!(engine.process(&at(1300, 5)).len(), 2);
}

#[test]
fn a_burst_that_crosses_the_end_of_the_cooldown_alerts_again() {
    let ip = IpAddress::V4(1);
    let now = Local::now();
    let mut engine = Engine::new(8, 60);
    let mut alerts = Vec::new();
    for i in 0..8 {
        alerts.extend(engine.process(&failure(ip, now + Duration::seconds(i))));
    }
    // Alert at +7 s. A burst that begins at +299 s, within the cooldown,
    // has its 8th failure at +306 s and its 9th at +307 s.
    for i in 0..9 {
        alerts.extend(engine.process(&failure(ip, now + Duration::seconds(299 + i))));
    }
    let brute = brute_force_alerts(&alerts);
    assert_eq!(brute.len(), 2);
    assert_eq!(brute[1].ts, Some(stamp(now + Duration::seconds(307))));
}

#[test]
fn lines_that_report_no_failure_do_not_count() {
    let ip = IpAddress::V4(0xC0A8_0164);
    let now = Local::now();
    let mut engine = Engine::new(2, 60);
    let quiet = LogEvent {
        ts: Some(stamp(now)),
        ip: Some(ip),
        user: None,
        raw: "Accepted password for admin".to_string(),
    };
    for _ in 0..10 {
        let alerts = engine.process(&quiet);
        assert_eq!(alerts.len(), 1);
        assert_eq!(alerts[0].rule_id, "ssh_success");
    }
    // Only now the count starts.
    assert_eq!(engine.process(&failure(ip, now)).len(), 1);
    assert_eq!(engine.process(&failure(ip, now)).len(), 2);
}

#[test]
fn failures_without_address_do_not_count() {
    let now = Local::now();
    let mut engine = Engine::new(1, 60);
    let event = LogEvent {
        ts: Some(stamp(now)),
        ip: None,
        user: None,
        raw: "Failed password for admin".to_string(),
    };
    for _ in 0..3 {
        let alerts = engine.process(&event);
        assert_eq!(alerts.len(), 1);
        assert_eq!(alerts[0].rule_id, "auth_failure");
    }
}

#[test]
fn ipv4_and_ipv6_with_the_same_bits_are_counted_apart() {
    let now = Local::now();
    let mut engine = Engine::new(2, 60);
    assert_eq!(engine.process(&failure(IpAddress::V4(7), now)).len(), 1);
    assert_eq!(engine.process(&failure(IpAddress::V6(7), now)).len(), 1);
    assert_eq!(engine.process(&failure(IpAddress::V6(7), now)).len(), 2);
    assert_eq!(engine.process(&failure(IpAddress::V4(7), now)).len(), 2);
}

#[test]
fn brute_force_alert_reports_count_and_window() {
    let ip = IpAddress::V4(0xC0A8_0164);
    let now = Local::now();
    let mut engine = Engine::new(3, 90);
    let mut alerts = Vec::new();
    for i in 0..3 {
        alerts.extend(engine.process(&failure(ip, now + Duration::seconds(i))));
    }
    let brute = brute_force_alerts(&alerts);
    assert_eq!(brute.len(), 1);
    let alert = brute[0];
    assert_eq!(alert.message, "Possible brute-force attack: 3 failures in 90 seconds");
    assert_eq!(alert.severity, Severity::High);
    assert_eq!(alert.ts, Some(stamp(now + Duration::seconds(2))));
    assert_eq!(alert.ip, Some(ip));
    assert_eq!(alert.user, Some("admin".to_string()));
    assert_eq!(alert.raw, "Failed password for admin");
}

#[test]
fn count_in_the_message_is_the_pruned_count() {
    let ip = IpAddress::V4(5);
    let now = Local::now();
    let mut engine = Engine::new(2, 10);
    let mut alerts = Vec::new();
    // Cooldown keeps the alert back while twelve failures pile up at one time.
    for _ in 0..12 {
        alerts.extend(engine.process(&failure(ip, now)));
    }
    assert_eq!(brute_force_alerts(&alerts).len(), 1);
    // Five minutes later all twelve are pruned. Two new ones alert.
    alerts.clear();
    alerts.extend(engine.process(&failure(ip, now + Duration::seconds(300))));
    assert_eq!(brute_force_alerts(&alerts).len(), 0);
    alerts.extend(engine.process(&failure(ip, now + Duration::seconds(301))));
    let brute = brute_force_alerts(&alerts);
    assert_eq!(brute.len(), 1);
    assert_eq!(brute[0].message, "Possible brute-force attack: 2 failures in 10 seconds");
}

#[test]
fn scenario_one_failed_password_line() {
    let line = "Jan 2 15:04:05 server sshd[1]: Failed password for admin from 192.168.1.100 port 22 ssh2";
    let event = parse_line(line).unwrap();
    assert!(event.ts.is_some());
    assert_eq!(event.ip, Some(IpAddress::V4(0xC0A8_0164)));
    assert_eq!(event.user, Some("admin".to_string()));

    let mut engine = Engine::new(8, 60);
    let alerts = engine.process(&event);
    assert_eq!(alerts.len(), 1);
    assert_eq!(alerts[0].rule_id, "auth_failure");
    assert_eq!(alerts[0].severity, Severity::Medium);
    assert_eq!(alerts[0].ts, event.ts);
    assert_eq!(alerts[0].ip, event.ip);
    assert_eq!(alerts[0].message, "Authentication failure detected");
    assert_eq!(alerts[0].raw, line);

    // The line left one entry in the queue of its address: seven more reach
    // the threshold of eight.
    for _ in 0..6 {
        assert_eq!(engine.process(&event).len(), 1);
    }
    assert_eq!(engine.process(&event).len(), 2);
}

#[test]
fn scenario_same_line_eight_times() {
    let line = "Jan 2 15:04:05 server sshd[1]: Failed password for admin from 192.168.1.100 port 22 ssh2";
    let mut engine = Engine::new(8, 60);
    for _ in 0..7 {
        let event = parse_line(line).unwrap();
        let alerts = engine.process(&event);
        assert_eq!(alerts.len(), 1);
        assert_eq!(alerts[0].rule_id, "auth_failure");
    }
    let event = parse_line(line).unwrap();
    let alerts = engine.process(&event);
    assert_eq!(alerts.len(), 2);
    assert_eq!(alerts[0].rule_id, "auth_failure");
    assert_eq!(alerts[0].severity, Severity::Medium);
    assert_eq!(alerts[1].rule_id, "brute_force");
    assert_eq!(alerts[1].severity, Severity::High);
    assert_eq!(alerts[1].ip, Some(IpAddress::V4(0xC0A8_0164)));
    assert_eq!(alerts[1].message, "Possible brute-force attack: 8 failures in 60 seconds");
}

#[test]
fn process_at_uses_the_given_time_for_events_without_one() {
    let ip = IpAddress::V4(9);
    let event = LogEvent {
        ts: None,
        ip: Some(ip),
        user: None,
        raw: "FAILED PASSWORD".to_string(),
    };
    let mut engine = Engine::new(2, 60);
    let t0 = Timestamp { secs: 100, nanos: 0 };
    let alerts = engine.process_at(&event, t0);
    assert_eq!(alerts.len(), 1);
    assert_eq!(alerts[0].ts, Some(t0));
    // 61 seconds later the first failure is out of the window.
    let alerts = engine.process_at(&event, Timestamp { secs: 161, nanos: 0 });
    assert_eq!(alerts.len(), 1);
    let alerts = engine.process_at(&event, Timestamp { secs: 162, nanos: 0 });
    assert_eq!(alerts.len(), 2);
    assert_eq!(alerts[1].ts, Some(Timestamp { secs: 162, nanos: 0 }));
}

#[test]
fn events_without_time_get_the_clock() {
    let before = stamp(Local::now());
    let event = LogEvent {
        ts: None,
        ip: Some(IpAddress::V4(9)),
        user: None,
        raw: "Failed password".to_string(),
    };
    let mut engine = Engine::new(1, 60);
    let alerts = engine.process(&event);
    let after = stamp(Local::now());
    assert_eq!(alerts.len(), 2);
    for alert in &alerts {
        let ts = alert.ts.unwrap();
        assert!(!ts.is_before(&before));
        assert!(!after.is_before(&ts));
    }
    assert_eq!(alerts[0].ts, alerts[1].ts);
}

#[test]
fn out_of_order_failures_are_pruned_from_the_front_only() {
    let ip = IpAddress::V4(3);
    let at = |secs: i64| LogEvent {
        ts: Some(Timestamp { secs, nanos: 0 }),
        ip: Some(ip),
        user: None,
        raw: "Failed password".to_string(),
    };
    let mut engine = Engine::new(3, 60);
    // The queue becomes [1000, 100]: the old entry hides behind the new one.
    assert_eq!(engine.process(&at(1000)).len(), 1);
    assert_eq!(engine.process(&at(100)).len(), 1);
    // At 1001 the front (1000) is recent, so nothing is pruned: 3 entries.
    assert_eq!(engine.process(&at(1001)).len(), 2);
}

#[test]
fn lines_go_from_text_to_alerts() {
    let mut engine = Engine::new(2, 60);
    let line = "Jan 2 15:04:05 server sshd[1]: Failed password for admin from 192.168.1.100 port 22 ssh2";
    assert!(engine.process_line("Jan 2 15:04:00 server kernel: eth0 up").is_empty());
    let first = engine.process_line(line);
    assert_eq!(first.len(), 1);
    assert_eq!(first[0].rule_id, "auth_failure");
    assert_eq!(first[0].user, Some("admin".to_string()));
    assert_eq!(first[0].ip, Some(IpAddress::V4(0xC0A8_0164)));
    assert_eq!(first[0].raw, line);
    let second = engine.process_line(line);
    assert_eq!(second.len(), 2);
    assert_eq!(second[1].rule_id, "brute_force");
    assert_eq!(second[1].message, "Possible brute-force attack: 2 failures in 60 seconds");
    assert_eq!(second[1].ts, parse_line(line).unwrap().ts);
}

#[test]
fn a_second_burst_of_eight_that_ends_after_the_cooldown_alerts() {
    let ip = IpAddress::V4(1);
    let now = Local::now();
    let mut engine = Engine::new(8, 60);
    let mut alerts = Vec::new();
    for i in 0..8 {
        alerts.extend(engine.process(&failure(ip, now + Duration::seconds(i))));
    }
    assert_eq!(brute_force_alerts(&alerts).len(), 1);
    // The alert came at +7 s. The second burst begins 295 s later, within
    // the cooldown, and its eighth failure comes 302 s after the alert.
    for i in 0..8 {
        alerts.extend(engine.process(&failure(ip, now + Duration::seconds(7 + 295 + i))));
    }
    let brute = brute_force_alerts(&alerts);
    assert_eq!(brute.len(), 2);
    assert_eq!(brute[1].ts, Some(stamp(now + Duration::seconds(7 + 302))));
}

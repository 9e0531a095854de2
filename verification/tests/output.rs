use log_sentinel::address::IpAddress;
use log_sentinel::alert::{Alert, Severity};
use log_sentinel::cli::{Args, ConfigError, DEFAULT_BRUTE_THRESHOLD, DEFAULT_BRUTE_WINDOW_SECS};
use log_sentinel::output::{format_alert, summary_lines, OutputMode, TOP_ADDRESSES};
use log_sentinel::stats::{rank, RuleTallies, Stats};
use log_sentinel::time::Timestamp;

fn alert(rule_id: &'static str, ip: Option<IpAddress>, user: Option<&str>) -> Alert {
    Alert {
        rule_id,
        severity: Severity::Medium,
        ts: Some(Timestamp { secs: 0, nanos: 0 }),
        ip,
        user: user.map(|u| u.to_string()),
        message: "Authentication failure detected".to_string(),
        raw: "raw line".to_string(),
    }
}

#[test]
fn pretty_line_with_address_and_user() {
    let a = alert("auth_failure", Some(IpAddress::V4(0xC0A8_0164)), Some("admin"));
    assert_eq!(
        format_alert(&a),
        "[Medium] auth_failure ip=192.168.1.100 user=admin :: Authentication failure detected"
    );
}

#[test]
fn pretty_line_with_address_only() {
    let a = alert("auth_failure", Some(IpAddress::V6(1)), None);
    assert_eq!(format_alert(&a), "[Medium] auth_failure ip=::1 :: Authentication failure detected");
}

#[test]
fn pretty_line_with_user_only() {
    let mut a = alert("sudo_usage", None, Some("root"));
    a.severity = Severity::Low;
    a.message = "Sudo command executed or attempted".to_string();
    assert_eq!(format_alert(&a), "[Low] sudo_usage user=root :: Sudo command executed or attempted");
}

#[test]
fn pretty_line_without_address_and_user() {
    let mut a = alert("ssh_success", None, None);
    a.severity = Severity::Info;
    a.message = "Successful SSH login".to_string();
    assert_eq!(format_alert(&a), "[Info] ssh_success Successful SSH login");
    a.severity = Severity::High;
    a.message = String::new();
    assert_eq!(format_alert(&a), "[High] ssh_success ");
}

#[test]
fn ranking_puts_larger_counts_first_and_keeps_ties_in_order() {
    assert_eq!(rank(&vec![]), Vec::<usize>::new());
    assert_eq!(rank(&vec![5]), vec![0]);
    assert_eq!(rank(&vec![1, 2, 3]), vec![2, 1, 0]);
    assert_eq!(rank(&vec![3, 2, 1]), vec![0, 1, 2]);
    assert_eq!(rank(&vec![2, 7, 2, 9, 7, 0]), vec![3, 1, 4, 0, 2, 5]);
    assert_eq!(rank(&vec![4, 4, 4]), vec![0, 1, 2]);
    assert_eq!(rank(&vec![0, usize::MAX]), vec![1, 0]);
}

#[test]
fn stats_count_by_rule_and_address() {
    let mut stats = Stats::new();
    assert_eq!(stats.rule_count("auth_failure"), 0);
    assert_eq!(stats.address_count(&IpAddress::V4(1)), 0);
    let a = alert("auth_failure", Some(IpAddress::V4(1)), None);
    let b = alert("brute_force", Some(IpAddress::V4(1)), None);
    let c = alert("auth_failure", Some(IpAddress::V6(1)), None);
    let d = alert("auth_failure", None, None);
    for x in [&a, &b, &c, &d, &a] {
        assert!(stats.has_room_for(x));
        stats.observe(x);
    }
    assert_eq!(stats.rule_count("auth_failure"), 4);
    assert_eq!(stats.rule_count("brute_force"), 1);
    assert_eq!(stats.rule_count("sudo_usage"), 0);
    assert_eq!(stats.address_count(&IpAddress::V4(1)), 3);
    assert_eq!(stats.address_count(&IpAddress::V6(1)), 1);
    assert_eq!(stats.address_count(&IpAddress::V4(2)), 0);
    assert_eq!(
        stats.rules_by_count(),
        vec![("auth_failure".to_string(), 4), ("brute_force".to_string(), 1)]
    );
    assert_eq!(
        stats.top_addresses(5),
        vec![(IpAddress::V4(1), 3), (IpAddress::V6(1), 1)]
    );
    assert_eq!(stats.top_addresses(1), vec![(IpAddress::V4(1), 3)]);
    assert_eq!(stats.top_addresses(0), vec![]);
}

#[test]
fn fresh_stats_are_empty() {
    for stats in [Stats::new(), Stats::default()] {
        assert_eq!(stats.rule_count("auth_failure"), 0);
        assert_eq!(stats.rules_by_count(), vec![]);
        assert_eq!(stats.top_addresses(5), vec![]);
    }
}

#[test]
fn rules_with_equal_counts_rank_in_the_order_first_seen() {
    let mut stats = Stats::new();
    for rule in ["sudo_usage", "auth_failure", "ssh_success", "auth_failure", "sudo_usage"] {
        stats.observe(&alert(rule, None, None));
    }
    assert_eq!(
        stats.rules_by_count(),
        vec![
            ("sudo_usage".to_string(), 2),
            ("auth_failure".to_string(), 2),
            ("ssh_success".to_string(), 1)
        ]
    );
}

#[test]
fn top_addresses_are_the_largest() {
    let mut stats = Stats::new();
    for (bits, times) in [(1u32, 3), (2, 9), (3, 1), (4, 7), (5, 5), (6, 2), (7, 8)] {
        for _ in 0..times {
            stats.observe(&alert("auth_failure", Some(IpAddress::V4(bits)), None));
        }
    }
    assert_eq!(
        stats.top_addresses(TOP_ADDRESSES),
        vec![
            (IpAddress::V4(2), 9),
            (IpAddress::V4(7), 8),
            (IpAddress::V4(4), 7),
            (IpAddress::V4(5), 5),
            (IpAddress::V4(1), 3)
        ]
    );
    assert_eq!(stats.top_addresses(100).len(), 7);
}

#[test]
fn summary() {
    let rules = vec![("auth_failure".to_string(), 12), ("brute_force".to_string(), 1)];
    let addresses = vec![(IpAddress::V4(0xC0A8_0164), 9), (IpAddress::V6(1), 4)];
    assert_eq!(
        summary_lines(&rules, &addresses),
        vec![
            "",
            "== Summary ==",
            "By rule:",
            "  auth_failure: 12",
            "  brute_force: 1",
            "Top IPs:",
            "  192.168.1.100: 9",
            "  ::1: 4",
        ]
    );
    assert_eq!(
        summary_lines(&vec![], &vec![]),
        vec!["", "== Summary ==", "By rule:", "Top IPs:"]
    );
    assert_eq!(TOP_ADDRESSES, 5);
}

fn args() -> Args {
    Args {
        file: Some("/var/log/auth.log".to_string()),
        stdin: false,
        follow: false,
        json: false,
        summary: false,
        brute_threshold: DEFAULT_BRUTE_THRESHOLD,
        brute_window_secs: DEFAULT_BRUTE_WINDOW_SECS,
    }
}

#[test]
fn defaults() {
    assert_eq!(DEFAULT_BRUTE_THRESHOLD, 8);
    assert_eq!(DEFAULT_BRUTE_WINDOW_SECS, 60);
    assert_eq!(args().validate(), Ok(()));
}

#[test]
fn settings_are_checked() {
    let mut a = args();
    a.brute_threshold = 0;
    assert_eq!(a.validate(), Err(ConfigError::ThresholdNotPositive));
    a.brute_window_secs = 0;
    assert_eq!(a.validate(), Err(ConfigError::ThresholdNotPositive));
    a.brute_threshold = 1;
    assert_eq!(a.validate(), Err(ConfigError::WindowNotPositive));
    a.brute_window_secs = -5;
    assert_eq!(a.validate(), Err(ConfigError::WindowNotPositive));
    a.file = None;
    assert_eq!(a.validate(), Err(ConfigError::WindowNotPositive));
    a.brute_window_secs = 1;
    assert_eq!(a.validate(), Err(ConfigError::MissingInput));
    a.stdin = true;
    assert_eq!(a.validate(), Ok(()));
    assert_eq!(ConfigError::MissingInput.message(), "Provide --file <path> or --stdin");
    assert_eq!(
        ConfigError::ThresholdNotPositive.message(),
        "The brute-force threshold must be positive"
    );
    assert_eq!(
        ConfigError::WindowNotPositive.message(),
        "The brute-force window must be positive"
    );
}

#[test]
fn output_mode_follows_the_json_flag() {
    let mut a = args();
    assert_eq!(a.output_mode(), OutputMode::Pretty);
    a.json = true;
    assert_eq!(a.output_mode(), OutputMode::Jsonl);
}

#[test]
fn rule_tallies_keep_one_entry_for_each_rule() {
    let mut tallies = RuleTallies::new();
    assert_eq!(tallies.count("a"), 0);
    for rule in ["a", "b", "a", "c", "b", "a"] {
        tallies = tallies.bump(rule);
    }
    assert_eq!(tallies.count("a"), 3);
    assert_eq!(tallies.count("b"), 2);
    assert_eq!(tallies.count("c"), 1);
    assert_eq!(tallies.count("d"), 0);

    let mut stats = Stats::new();
    for rule in ["auth_failure", "brute_force", "auth_failure", "auth_failure"] {
        stats.observe(&alert(rule, None, None));
    }
    let ranked = stats.rules_by_count();
    assert_eq!(ranked.len(), 2);
    assert_eq!(ranked[0], ("auth_failure".to_string(), 3));
    assert_eq!(ranked[1], ("brute_force".to_string(), 1));
}

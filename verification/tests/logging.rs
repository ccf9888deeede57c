use mostro_client::logging::{
    accepts, buffer_entry, ceiling_for, clear_logs, console_line, default_max_level, enabled,
    entry_level, forward_log, is_excluded, recent_logs, set_verbose_logging, short_tag,
    verbose_max_level, web_console_line, Level, LevelFilter, LogBuffer, LogHub, LogLevel, BUFFER_CAPACITY,
};

fn as_log_filter(filter: LevelFilter) -> log::LevelFilter {
    match filter {
        LevelFilter::Off => log::LevelFilter::Off,
        LevelFilter::Error => log::LevelFilter::Error,
        LevelFilter::Warn => log::LevelFilter::Warn,
        LevelFilter::Info => log::LevelFilter::Info,
        LevelFilter::Debug => log::LevelFilter::Debug,
        LevelFilter::Trace => log::LevelFilter::Trace,
    }
}

#[test]
fn forward_log_does_not_panic() {
    // Forwarding with nobody subscribed to the live stream must not panic.
    let mut hub = LogHub::new();
    forward_log(&mut hub, Level::Info, "test", "should not panic", 0);
    assert_eq!(hub.buffer().len(), 1);
}

#[test]
fn forwarded_entries_reach_live_subscribers() {
    let mut hub = LogHub::new();
    let mut rx = hub.live().subscribe();

    forward_log(&mut hub, Level::Warn, "nwc::client", "test warning", 5);

    let entry = rx.try_recv().expect("an entry on the live stream");
    assert_eq!(entry.timestamp, 5);
    assert_eq!(entry.tag, "client");
    assert_eq!(entry.level, LogLevel::Warning);
    assert_eq!(entry.message, "test warning");
    assert_eq!(entry.id, 0);
}

#[test]
fn recent_logs_is_bounded_and_newest_first() {
    let mut buffer = LogBuffer::new();
    for i in 0..(BUFFER_CAPACITY + 50) {
        buffer_entry(&mut buffer, Level::Info, "buffer_probe", &format!("entry {i}"), 1);
    }

    let entries = recent_logs(&buffer);
    assert!(entries.len() <= BUFFER_CAPACITY);
    assert!(
        entries.windows(2).all(|w| w[0].id > w[1].id),
        "recent_logs must be ordered newest first",
    );
}

#[test]
fn the_oldest_entries_are_evicted_first() {
    let mut buffer = LogBuffer::new();
    for i in 0..(BUFFER_CAPACITY + 1) {
        buffer.record(Level::Info, "probe", &format!("entry {i}"), 42);
    }
    let entries = recent_logs(&buffer);
    assert_eq!(entries.len(), BUFFER_CAPACITY);
    assert_eq!(entries[0].id, BUFFER_CAPACITY as u32);
    assert_eq!(entries[0].message, format!("entry {}", BUFFER_CAPACITY));
    assert_eq!(entries[BUFFER_CAPACITY - 1].id, 1);
    assert_eq!(entries[BUFFER_CAPACITY - 1].message, "entry 1");
    assert_eq!(entries[0].timestamp, 42);
}

#[test]
fn clearing_keeps_the_ids_counting() {
    let mut buffer = LogBuffer::new();
    buffer.record(Level::Error, "a", "one", 1);
    buffer.record(Level::Error, "a", "two", 2);
    clear_logs(&mut buffer);
    assert!(recent_logs(&buffer).is_empty());
    let e = buffer.record(Level::Debug, "a::b", "three", 3);
    assert_eq!(e.id, 2);
    assert_eq!(e.level, LogLevel::Debug);
    assert_eq!(e.tag, "b");
    assert_eq!(recent_logs(&buffer).len(), 1);
}

#[test]
fn excluded_targets_never_reach_any_sink() {
    const TARGET: &str = "nostr_relay_pool::relay::inner";
    const PAYLOAD: &str = "traffic-probe-payload";

    // The ceiling the bridge installs at start-up; this test leaves the
    // process-wide filter alone, which another test sets.
    let installed = default_max_level(true);
    let mut hub = LogHub::new();
    for (level, message) in [
        (Level::Debug, format!("Received '{PAYLOAD}'")),
        (Level::Info, format!("Connected, {PAYLOAD}")),
        (Level::Warn, format!("Rejected, {PAYLOAD}")),
        (Level::Error, format!("Impossible to handle relay message, msg={PAYLOAD}")),
    ] {
        if accepts(level, TARGET, installed) {
            forward_log(&mut hub, level, TARGET, &message, 0);
        }
    }

    assert!(!recent_logs(hub.buffer()).iter().any(|e| e.message.contains(PAYLOAD)));
    for level in [Level::Error, Level::Warn, Level::Info, Level::Debug] {
        assert!(
            !accepts(level, TARGET, installed) && !enabled(level, TARGET),
            "{:?} records from an excluded target must be dropped",
            level,
        );
    }
    assert!(accepts(Level::Info, "nostr_sdk::client", installed));
}

#[test]
fn verbose_logging_gates_debug_records() {
    assert_eq!(set_verbose_logging(true, true), LevelFilter::Debug);
    assert!(log::max_level() >= log::LevelFilter::Debug);

    assert_eq!(set_verbose_logging(false, true), default_max_level(true));
    assert_eq!(log::max_level(), as_log_filter(default_max_level(true)));

    assert_eq!(set_verbose_logging(false, false), LevelFilter::Info);
    assert_eq!(log::max_level(), log::LevelFilter::Info);
    assert!(!enabled(Level::Debug, "mostro::trade"));
    assert!(enabled(Level::Info, "mostro::trade"));
}

#[test]
fn verbosity_follows_the_setting_and_the_build() {
    assert_eq!(default_max_level(true), LevelFilter::Debug);
    assert_eq!(default_max_level(false), LevelFilter::Info);
    assert_eq!(verbose_max_level(true, false), LevelFilter::Debug);
    assert_eq!(verbose_max_level(false, false), LevelFilter::Info);
    assert_eq!(verbose_max_level(false, true), LevelFilter::Debug);
}

#[test]
fn targets_are_filtered_by_prefix() {
    assert!(is_excluded("nostr_relay_pool"));
    assert!(is_excluded("nostr_relay_pool::relay::inner"));
    assert!(!is_excluded("nostr_relay"));
    assert!(!is_excluded("rust::nostr_relay_pool"));
    assert_eq!(ceiling_for("nostr_relay_pool::pool", LevelFilter::Trace), LevelFilter::Off);
    assert_eq!(ceiling_for("mostro::orders", LevelFilter::Warn), LevelFilter::Warn);
}

#[test]
fn acceptance_compares_the_level_with_the_ceiling() {
    assert!(accepts(Level::Error, "mostro", LevelFilter::Error));
    assert!(!accepts(Level::Warn, "mostro", LevelFilter::Error));
    assert!(accepts(Level::Info, "mostro", LevelFilter::Info));
    assert!(!accepts(Level::Debug, "mostro", LevelFilter::Info));
    assert!(accepts(Level::Trace, "mostro", LevelFilter::Trace));
    assert!(!accepts(Level::Error, "mostro", LevelFilter::Off));
    assert!(!accepts(Level::Error, "nostr_relay_pool::relay", LevelFilter::Trace));
}

#[test]
fn levels_map_to_ui_levels() {
    assert_eq!(entry_level(Level::Error), LogLevel::Error);
    assert_eq!(entry_level(Level::Warn), LogLevel::Warning);
    assert_eq!(entry_level(Level::Info), LogLevel::Info);
    assert_eq!(entry_level(Level::Debug), LogLevel::Debug);
    assert_eq!(entry_level(Level::Trace), LogLevel::Debug);
}

#[test]
fn short_tags_are_the_last_path_segment() {
    assert_eq!(short_tag("rust::nwc::client"), "client");
    assert_eq!(short_tag("client"), "client");
    assert_eq!(short_tag(""), "");
    assert_eq!(short_tag("a::"), "");
    assert_eq!(short_tag("a:::b"), "b");
    assert_eq!(short_tag("a:b"), "a:b");
    assert_eq!(short_tag("ünï::cødé"), "cødé");
    for t in ["rust::nwc::client", "a:::b", "::", "x::y::", "plain", "é::ø:ø"] {
        assert_eq!(short_tag(t), t.rsplit("::").next().unwrap_or(t));
    }
}

#[test]
fn console_lines_show_the_utc_time_of_day() {
    assert_eq!(
        console_line(1_700_000_000 + 3, Level::Warn, "nwc::client", "relay lost"),
        "22:13:23Z [WARN ] nwc::client: relay lost"
    );
    assert_eq!(console_line(0, Level::Error, "t", "m"), "00:00:00Z [ERROR] t: m");
    assert_eq!(console_line(86_399, Level::Debug, "t", "m"), "23:59:59Z [DEBUG] t: m");
    assert_eq!(console_line(3_661, Level::Info, "t", ""), "01:01:01Z [INFO ] t: ");
    assert_eq!(console_line(59, Level::Trace, "", "x"), "00:00:59Z [TRACE] : x");
}

#[test]
fn console_lines_follow_rust_formatting_before_the_epoch() {
    assert_eq!(console_line(-1, Level::Info, "t", "m"), "00:00:-1Z [INFO ] t: m");
    assert_eq!(console_line(-3_661, Level::Warn, "t", "m"), "-1:-1:-1Z [WARN ] t: m");
    for secs in [-1i64, -59, -60, -61, -3_599, -3_601, -86_399, -90_061, -1_000_000, i64::MIN, 0, 61] {
        let expected = format!(
            "{:02}:{:02}:{:02}Z [{:<5}] {}: {}",
            (secs / 3600) % 24,
            (secs / 60) % 60,
            secs % 60,
            log::Level::Warn,
            "nwc::client",
            "relay lost",
        );
        assert_eq!(console_line(secs, Level::Warn, "nwc::client", "relay lost"), expected);
    }
}

#[test]
fn recent_logs_holds_exactly_the_last_thousand_newest_first() {
    let mut buffer = LogBuffer::new();
    let n = BUFFER_CAPACITY + 50;
    for i in 0..n {
        buffer_entry(&mut buffer, Level::Info, "probe", &format!("entry {i}"), 1);
    }
    let entries = recent_logs(&buffer);
    assert_eq!(entries.len(), BUFFER_CAPACITY);
    for (k, e) in entries.iter().enumerate() {
        assert_eq!(e.message, format!("entry {}", n - 1 - k));
        assert_eq!(e.id, (n - 1 - k) as u32);
    }
    let again = recent_logs(&buffer);
    assert_eq!(again.len(), entries.len());
    assert!(again.iter().zip(entries.iter()).all(|(a, b)| a.id == b.id && a.message == b.message));

    let mut few = LogBuffer::new();
    for i in 0..3 {
        few.record(Level::Warn, "probe", &format!("e{i}"), 7);
    }
    let ids: Vec<u32> = recent_logs(&few).iter().map(|e| e.id).collect();
    assert_eq!(ids, vec![2, 1, 0]);
}

#[test]
fn forwarding_at_a_given_time_stamps_the_entry() {
    let mut hub = LogHub::new();
    forward_log(&mut hub, Level::Error, "a::b", "boom", 1234);
    let entries = recent_logs(hub.buffer());
    assert_eq!(entries.len(), 1);
    assert_eq!(entries[0].timestamp, 1234);
    assert_eq!(entries[0].tag, "b");
    assert_eq!(entries[0].level, LogLevel::Error);
}

#[test]
fn browser_console_lines_are_target_and_message() {
    assert_eq!(web_console_line("nwc::client", "relay lost"), "nwc::client: relay lost");
    assert_eq!(web_console_line("", ""), ": ");
}

use focuser_ui::lock::{
    app_icon_targets, quit_blocked_by, quit_blocked_by_at, unix_now, unix_seconds, AppMatchType, AppRule, BlockList,
    Protection,
};

fn locked(prevent_service_stop: bool, minutes: i64) -> BlockList {
    let mut list = BlockList::new("Deep Work");
    list.enabled = true;
    let now = unix_now();
    list.protection = Some(Protection {
        prevent_uninstall: false,
        prevent_service_stop,
        prevent_modification: false,
        started_at: now,
        expires_at: now + minutes * 60,
    });
    list
}

fn locked_at(name: &str, enabled: bool, prevent_service_stop: bool, expires_at: i64) -> BlockList {
    let mut list = BlockList::new(name);
    list.enabled = enabled;
    list.protection = Some(Protection {
        prevent_uninstall: false,
        prevent_service_stop,
        prevent_modification: false,
        started_at: 0,
        expires_at,
    });
    list
}

#[test]
fn quitting_is_refused_while_a_lock_asks_us_to_stay() {
    let reason = quit_blocked_by(&vec![locked(true, 45)]);
    let reason = reason.expect("an active lock should hold the app open");
    assert!(reason.contains("Deep Work"), "should name the list: {reason}");
    assert!(reason.contains("45 minutes"), "should say how long: {reason}");
}

#[test]
fn a_lock_that_did_not_ask_to_prevent_quitting_does_not() {
    assert!(quit_blocked_by(&vec![locked(false, 45)]).is_none());
}

#[test]
fn an_expired_lock_releases_the_app() {
    assert!(quit_blocked_by(&vec![locked(true, -1)]).is_none());
}

#[test]
fn a_disabled_list_holds_nothing() {
    let mut list = locked(true, 45);
    list.enabled = false;
    assert!(quit_blocked_by(&vec![list]).is_none());
}

#[test]
fn with_no_lists_at_all_quitting_is_allowed() {
    assert!(quit_blocked_by(&Vec::new()).is_none());
}

#[test]
fn the_refusal_reads_name_dash_time_left() {
    let now = 1_000_000;
    let lists = vec![locked_at("Deep Work", true, true, now + 45 * 60)];
    assert_eq!(
        quit_blocked_by_at(&lists, now).as_deref(),
        Some("Deep Work — 45 minutes left")
    );
}

#[test]
fn the_longest_lock_is_named() {
    let now = 1_000_000;
    let lists = vec![
        locked_at("Short", true, true, now + 600),
        locked_at("Long", true, true, now + 7200),
        locked_at("Middle", true, true, now + 3600),
    ];
    assert_eq!(quit_blocked_by_at(&lists, now).as_deref(), Some("Long — 2 hours left"));
}

#[test]
fn among_equal_locks_the_last_is_named() {
    let now = 1_000_000;
    let lists = vec![
        locked_at("First", true, true, now + 90),
        locked_at("Second", true, true, now + 90),
    ];
    assert_eq!(quit_blocked_by_at(&lists, now).as_deref(), Some("Second — 2 minutes left"));
}

#[test]
fn lists_that_do_not_hold_the_app_change_nothing() {
    let now = 1_000_000;
    let holding = locked_at("Work", true, true, now + 30);
    let alone = quit_blocked_by_at(&vec![holding], now);
    let with_others = quit_blocked_by_at(
        &vec![
            locked_at("Disabled", false, true, now + 99_999),
            locked_at("Work", true, true, now + 30),
            locked_at("Lets go", true, false, now + 99_999),
            locked_at("Expired", true, true, now),
            BlockList::new("Unlocked"),
        ],
        now,
    );
    assert_eq!(alone.as_deref(), Some("Work — 1 minute left"));
    assert_eq!(alone, with_others);
}

#[test]
fn a_lock_ends_at_its_expiry_second() {
    let p = Protection {
        prevent_uninstall: true,
        prevent_service_stop: true,
        prevent_modification: true,
        started_at: 0,
        expires_at: 100,
    };
    assert!(p.is_active(99));
    assert!(!p.is_active(100));
    assert_eq!(p.remaining_seconds(40), 60);
    assert_eq!(p.remaining_seconds(100), 0);
    assert_eq!(p.remaining_seconds(500), 0);
    let extreme = Protection { expires_at: i64::MAX, ..p };
    assert_eq!(extreme.remaining_seconds(i64::MIN), u64::MAX);
}

#[test]
fn service_protection_needs_enabled_stop_preventing_running_lock() {
    assert!(locked_at("a", true, true, 10).has_service_protection(9));
    assert!(!locked_at("a", true, true, 10).has_service_protection(10));
    assert!(!locked_at("a", false, true, 10).has_service_protection(9));
    assert!(!locked_at("a", true, false, 10).has_service_protection(9));
    assert!(!BlockList::new("a").has_service_protection(0));
}

#[test]
fn icon_targets_are_every_rule_in_order() {
    let mut a = BlockList::new("a");
    a.applications.push(AppRule { match_type: AppMatchType::ExecutableName("steam.exe".to_string()) });
    a.applications.push(AppRule { match_type: AppMatchType::WindowTitle("Solitaire".to_string()) });
    let b = BlockList::new("b");
    let mut c = BlockList::new("c");
    c.applications.push(AppRule { match_type: AppMatchType::ExecutablePath("/usr/bin/game".to_string()) });
    c.applications.push(AppRule { match_type: AppMatchType::BundleId("com.example.game".to_string()) });
    assert_eq!(
        app_icon_targets(&vec![a, b, c]),
        vec!["steam.exe", "Solitaire", "/usr/bin/game", "com.example.game"]
    );
    assert!(app_icon_targets(&Vec::new()).is_empty());
}

#[test]
fn clock_readings_become_unix_timestamps() {
    assert_eq!(unix_seconds(Ok(1_700_000_000)), 1_700_000_000);
    assert_eq!(unix_seconds(Err(5)), -5);
    assert_eq!(unix_seconds(Ok(u64::MAX)), i64::MAX);
    assert_eq!(unix_seconds(Err(u64::MAX)), -i64::MAX);
    assert!(unix_now() > 1_600_000_000);
}

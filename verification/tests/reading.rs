use focuser_ui::browsers::{browser_launch_cmd, extension_store_url};
use focuser_ui::remaining::format_remaining;

#[test]
fn remaining_time_reads_naturally_at_every_scale() {
    assert_eq!(format_remaining(0), "less than a minute");
    assert_eq!(format_remaining(30), "1 minute");
    assert_eq!(format_remaining(60), "1 minute");
    assert_eq!(format_remaining(90), "2 minutes");
    assert_eq!(format_remaining(3600), "1 hour");
    assert_eq!(format_remaining(5400), "1 hour 30 min");
    assert_eq!(format_remaining(7200), "2 hours");
}

#[test]
fn remaining_time_rounds_up_to_the_minute() {
    assert_eq!(format_remaining(1), "1 minute");
    assert_eq!(format_remaining(61), "2 minutes");
    assert_eq!(format_remaining(3540), "59 minutes");
    assert_eq!(format_remaining(3541), "1 hour");
    assert_eq!(format_remaining(3601), "1 hour 1 min");
    assert_eq!(format_remaining(86_400), "24 hours");
    assert_eq!(format_remaining(90_000), "25 hours");
    assert_eq!(format_remaining(u64::MAX), "5124095576030431 hours 1 min");
}

#[test]
fn firefox_gets_the_mozilla_store_and_others_chrome() {
    assert_eq!(
        extension_store_url("Mozilla Firefox"),
        ("https://addons.mozilla.org/en-US/firefox/addon/focuser-website-blocker/", "firefox")
    );
    for name in ["Google Chrome", "Microsoft Edge", "mozilla firefox", ""] {
        assert_eq!(
            extension_store_url(name),
            ("https://chromewebstore.google.com/detail/jpnhbpbcmagoonmaleppldmcnaibkbmj", "chrome")
        );
    }
}

#[test]
fn each_known_browser_has_its_launcher() {
    assert_eq!(browser_launch_cmd("Mozilla Firefox"), "firefox");
    assert_eq!(browser_launch_cmd("Microsoft Edge"), "msedge");
    assert_eq!(browser_launch_cmd("Brave Browser"), "brave");
    assert_eq!(browser_launch_cmd("Opera"), "opera");
    assert_eq!(browser_launch_cmd("Google Chrome"), "chrome");
    assert_eq!(browser_launch_cmd("Opera GX"), "chrome");
}

#[test]
fn times_read_alike_only_within_the_same_minute() {
    assert_eq!(format_remaining(61), format_remaining(120));
    assert_ne!(format_remaining(120), format_remaining(121));
    assert_eq!(format_remaining(3541), format_remaining(3600));
    assert_ne!(format_remaining(3600), format_remaining(3601));
    assert_ne!(format_remaining(0), format_remaining(1));
}

use codex_usage_tray::run::{lock_holder, run_mode, RunMode};

fn mode(args: &[&str]) -> RunMode {
    run_mode(&args.iter().map(|s| s.to_string()).collect())
}

#[test]
fn flags_choose_the_mode() {
    assert_eq!(mode(&["tray"]), RunMode::Tray);
    assert_eq!(mode(&[]), RunMode::Tray);
    assert_eq!(mode(&["tray", "--once"]), RunMode::Once);
    assert_eq!(mode(&["tray", "--html"]), RunMode::Html);
    assert_eq!(mode(&["tray", "--test-5h-reset"]), RunMode::TestPrimaryReset);
    assert_eq!(mode(&["tray", "--test-weekly-reset"]), RunMode::TestWeeklyReset);
    assert_eq!(mode(&["tray", "--test-pace-alert"]), RunMode::TestPaceAlert);
    assert_eq!(mode(&["tray", "--html", "--once"]), RunMode::Once);
    assert_eq!(mode(&["tray", "--test-pace-alert", "--html"]), RunMode::Html);
    assert_eq!(mode(&["tray", "--HTML", "x"]), RunMode::Tray);
}

#[test]
fn the_lock_names_a_process() {
    assert_eq!(lock_holder(" 1234\n"), Some(1234));
    assert_eq!(lock_holder("x"), None);
}

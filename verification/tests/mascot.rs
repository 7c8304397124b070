use codex_usage_tray::clock::TimePoint;
use codex_usage_tray::double::Double;
use codex_usage_tray::mascot::{
    advance_frame, advance_frame_at, current_frame_path, frames_dir, icon_suffix, notify_success,
    notify_success_at, resolve_state, resolve_state_at, seconds_since_last_session_write,
    seconds_since_last_session_write_at, set_used_percent, set_used_percent_at, tick,
    ClockReading, MascotRuntime, MascotState,
};

fn double(x: f64) -> Double {
    Double { bits: x.to_bits() }
}

fn at(secs: i64, nanos: u32) -> TimePoint {
    TimePoint { secs, nanos }
}

fn never() -> Option<u64> {
    None
}

fn just_now() -> Option<u64> {
    Some(0)
}

fn a_while_ago() -> Option<u64> {
    Some(600)
}

#[test]
fn feelings_have_an_order() {
    let calm = double(10.0);
    let worried = double(80.0);
    assert_eq!(resolve_state_at(worried, Some(11), 10, Some(0)), MascotState::Success);
    assert_eq!(resolve_state_at(worried, Some(10), 10, Some(120)), MascotState::Working);
    assert_eq!(resolve_state_at(worried, None, 10, Some(121)), MascotState::Warning);
    assert_eq!(resolve_state_at(worried, None, 10, None), MascotState::Warning);
    assert_eq!(resolve_state_at(double(79.9), None, 10, Some(1800)), MascotState::Sleeping);
    assert_eq!(resolve_state_at(calm, None, 10, None), MascotState::Sleeping);
    assert_eq!(resolve_state_at(calm, None, 10, Some(1799)), MascotState::Idle);
    assert_eq!(resolve_state_at(double(f64::NAN), None, 10, Some(121)), MascotState::Idle);
}

#[test]
fn feelings_follow_the_clock() {
    assert_eq!(resolve_state(double(0.0), Some(i64::MAX), &never), MascotState::Success);
    assert_eq!(resolve_state(double(0.0), Some(0), &never), MascotState::Sleeping);
    assert_eq!(resolve_state(double(0.0), None, &just_now), MascotState::Working);
    assert_eq!(resolve_state(double(99.0), None, &a_while_ago), MascotState::Warning);
    assert_eq!(resolve_state(double(1.0), None, &a_while_ago), MascotState::Idle);
}

#[test]
fn success_holds_for_its_time() {
    let mut mascot = MascotRuntime::new(5);
    notify_success_at(&mut mascot, 1000);
    assert_eq!(mascot.state, MascotState::Success);
    assert_eq!(mascot.success_until, Some(1045));
    assert!(advance_frame_at(&mut mascot, 1044, 1044, None));
    assert_eq!(mascot.state, MascotState::Success);
    assert!(advance_frame_at(&mut mascot, 1045, 1045, None));
    assert_eq!(mascot.state, MascotState::Sleeping);
    assert_eq!(mascot.success_until, None);
}

#[test]
fn success_is_timed_by_the_clock() {
    let mut mascot = MascotRuntime::new(1);
    let before = chrono::Utc::now().timestamp();
    notify_success(&mut mascot);
    let after = chrono::Utc::now().timestamp();
    let until = mascot.success_until.unwrap();
    assert!(before + 45 <= until && until <= after + 45);
    assert!(!advance_frame(&mut mascot, &never));
    assert_eq!(mascot.state, MascotState::Success);
    mascot.success_until = Some(5);
    advance_frame(&mut mascot, &just_now);
    assert_eq!(mascot.state, MascotState::Working);
    assert_eq!(mascot.success_until, None);
}

#[test]
fn usage_is_told() {
    let mut mascot = MascotRuntime::new(3);
    set_used_percent_at(&mut mascot, double(85.0), 10, 10, None);
    assert_eq!(mascot.state, MascotState::Warning);
    assert_eq!(mascot.used_percent, double(85.0));
    notify_success_at(&mut mascot, 10);
    set_used_percent_at(&mut mascot, double(1.0), 54, 55, Some(7));
    assert_eq!(mascot.state, MascotState::Working);
    assert_eq!(mascot.success_until, Some(55));
    set_used_percent_at(&mut mascot, double(1.0), 55, 55, Some(700));
    assert_eq!(mascot.state, MascotState::Idle);
    assert_eq!(mascot.success_until, None);
    tick(&mut mascot, double(90.0), &never);
    assert_eq!(mascot.state, MascotState::Warning);
    set_used_percent(&mut mascot, double(2.0), &just_now);
    assert_eq!(mascot.state, MascotState::Working);
}

#[test]
fn the_latest_write_counts() {
    let times = vec![at(100, 0), at(200, 900), at(150, 0)];
    assert_eq!(seconds_since_last_session_write_at(&times, at(260, 900)), Some(60));
    assert_eq!(seconds_since_last_session_write_at(&times, at(260, 899)), Some(59));
    assert_eq!(seconds_since_last_session_write_at(&times, at(200, 900)), Some(0));
    assert_eq!(seconds_since_last_session_write_at(&times, at(200, 899)), None);
    assert_eq!(seconds_since_last_session_write_at(&Vec::new(), at(200, 0)), None);
    assert_eq!(
        seconds_since_last_session_write_at(&vec![at(i64::MIN, 0)], at(i64::MAX, 0)),
        Some(u64::MAX)
    );
}

#[test]
fn the_age_of_a_write_follows_the_clock() {
    let now = chrono::Utc::now().timestamp();
    let age = seconds_since_last_session_write(&vec![at(now - 100, 0)]).unwrap();
    assert!((100..=105).contains(&age));
    assert_eq!(seconds_since_last_session_write(&vec![at(now + 1000, 0)]), None);
    assert_eq!(seconds_since_last_session_write(&Vec::new()), None);
}

#[test]
fn pictures_go_round() {
    let mut mascot = MascotRuntime::new(3);
    let names: Vec<String> = (0..5).map(|_| current_frame_path(&mut mascot, "/icons")).collect();
    assert_eq!(
        names,
        vec![
            "/icons/mascot-gif/f0001.png",
            "/icons/mascot-gif/f0002.png",
            "/icons/mascot-gif/f0003.png",
            "/icons/mascot-gif/f0001.png",
            "/icons/mascot-gif/f0002.png",
        ]
    );
    assert_eq!(mascot.icon_tick, 5);
    let mut none = MascotRuntime::new(0);
    assert_eq!(current_frame_path(&mut none, "/icons"), "/icons/mascot-gif/f0001.png");
    assert_eq!(current_frame_path(&mut none, "/icons"), "/icons/mascot-gif/f0001.png");
    assert_eq!(frames_dir("/icons/"), "/icons/mascot-gif");
    let mut last = MascotRuntime { icon_tick: usize::MAX, ..MascotRuntime::new(1) };
    current_frame_path(&mut last, "");
    assert_eq!(last.icon_tick, 0);
}

#[test]
fn icon_names_change_with_each_picture() {
    let mut mascot = MascotRuntime::new(1);
    assert_eq!(icon_suffix(&mascot), "Idle-0");
    let mut previous = icon_suffix(&mascot);
    for _ in 0..130 {
        current_frame_path(&mut mascot, "/icons");
        let next = icon_suffix(&mascot);
        assert_ne!(next, previous);
        previous = next;
    }
    assert_eq!(previous, "Idle-2");
    for state in [
        MascotState::Idle,
        MascotState::Working,
        MascotState::Success,
        MascotState::Warning,
        MascotState::Sleeping,
    ] {
        let mascot = MascotRuntime { state, icon_tick: 65, ..MascotRuntime::new(1) };
        assert_eq!(icon_suffix(&mascot), format!("{state:?}-1"));
        assert_eq!(state.frame_range(7), (0, 7));
        assert_eq!(state.frame_range(0), (0, 1));
    }
}

#[test]
fn the_clock_is_read_on_both_sides_of_1970() {
    let since = ClockReading::Since { secs: 7, nanos: 5 };
    assert_eq!(since.moment(), at(7, 5));
    assert_eq!(since.epoch_seconds(), 7);
    let whole = ClockReading::Before { secs: 7, nanos: 0 };
    assert_eq!(whole.moment(), at(-7, 0));
    assert_eq!(whole.epoch_seconds(), 0);
    let part = ClockReading::Before { secs: 7, nanos: 250_000_000 };
    assert_eq!(part.moment(), at(-8, 750_000_000));
    assert_eq!(part.epoch_seconds(), 0);
    assert_eq!(
        seconds_since_last_session_write_at(&vec![at(-10, 0)], part.moment()),
        Some(2)
    );
}

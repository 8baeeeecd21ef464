use rotepad::launch::new_window_command;
use rotepad::timers::{step_countdown, Timers, CONSOLE_FADE_TICKS, TICK_MILLIS, WORD_COUNT_DELAY_TICKS};

#[test]
fn refresh_fires_on_seventh_tick_after_edit() {
    let mut t = Timers::new();
    let first = t.tick(Some(WORD_COUNT_DELAY_TICKS), None);
    assert!(!first.refresh);
    let mut fired_at = None;
    for k in 2..=30u32 {
        let a = t.tick(None, None);
        assert!(!a.fade_console);
        if a.refresh {
            assert!(fired_at.is_none());
            fired_at = Some(k);
        }
    }
    assert_eq!(fired_at, Some(7));
    assert_eq!(t.countdown, 0);
    assert_eq!(TICK_MILLIS * WORD_COUNT_DELAY_TICKS as u64, 350);
}

#[test]
fn later_edit_postpones_refresh() {
    let mut t = Timers::new();
    t.tick(Some(7), None);
    for _ in 0..4 {
        assert!(!t.tick(None, None).refresh);
    }
    assert!(!t.tick(Some(7), None).refresh);
    let mut count = 0;
    for k in 2..=7 {
        let a = t.tick(None, None);
        if a.refresh {
            assert_eq!(k, 7);
            count += 1;
        }
    }
    assert_eq!(count, 1);
}

#[test]
fn console_fades_after_twenty_ticks() {
    let mut t = Timers::new();
    assert!(!t.tick(None, Some(CONSOLE_FADE_TICKS)).fade_console);
    for k in 2..=20 {
        let a = t.tick(None, None);
        assert_eq!(a.fade_console, k == 20);
        assert!(!a.refresh);
    }
    assert_eq!(t.console_countdown, 0);
}

#[test]
fn countdown_edge_cases() {
    assert_eq!(step_countdown(0, None), (0, false));
    assert_eq!(step_countdown(5, Some(0)), (0, false));
    assert_eq!(step_countdown(0, Some(1)), (0, true));
    assert_eq!(step_countdown(3, None), (2, false));
    assert_eq!(step_countdown(1, None), (0, true));
    assert_eq!(step_countdown(2, Some(u16::MAX)), (u16::MAX - 1, false));
}

#[test]
fn new_window_command_runs_this_program() {
    let cmd = new_window_command(Some("/usr/bin/rotepad".to_string()), Some("/home/a.txt".to_string()), false).unwrap();
    assert_eq!(cmd.program, "/usr/bin/rotepad");
    assert_eq!(cmd.args, vec!["/home/a.txt".to_string()]);
    let cmd = new_window_command(Some("/usr/bin/rotepad".to_string()), None, false).unwrap();
    assert!(cmd.args.is_empty());
    assert!(new_window_command(None, Some("x".to_string()), false).is_none());
}

#[test]
fn new_window_command_on_windows_names_path_str() {
    let cmd = new_window_command(Some("C:\\rotepad.exe".to_string()), Some("a.txt".to_string()), true).unwrap();
    assert_eq!(cmd.program, "path_str");
    assert_eq!(cmd.args, vec!["a.txt".to_string()]);
}

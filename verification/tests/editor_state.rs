use rotepad::editor::{FileError, GuardStep, SaveTarget, WindowData, ANSWER_YES};
use rotepad::timers::WORD_COUNT_DELAY_TICKS;

fn data(path: Option<&str>, unsaved: bool, disabled: bool) -> WindowData {
    WindowData {
        wordcount: 0,
        path: path.map(|p| p.to_string()),
        contentunsaved: unsaved,
        autosavedisabled: disabled,
    }
}

#[test]
fn default_window_data_is_clean() {
    let d = WindowData::default();
    assert_eq!(d.wordcount, 0);
    assert_eq!(d.path, None);
    assert!(!d.contentunsaved);
    assert!(!d.autosavedisabled);
}

#[test]
fn editing_marks_unsaved_and_schedules_refresh() {
    let mut d = data(Some("/tmp/a.txt"), false, false);
    let ticks = d.update_text_state();
    assert_eq!(ticks, 7);
    assert_eq!(ticks, WORD_COUNT_DELAY_TICKS);
    assert!(d.contentunsaved);
    assert_eq!(d.path.as_deref(), Some("/tmp/a.txt"));
}

#[test]
fn count_words_records_count_and_label() {
    let mut d = data(None, true, false);
    let label = d.count_words("the quick brown fox");
    assert_eq!(label.as_deref(), Some("4 words"));
    assert_eq!(d.wordcount, 4);
    assert!(d.contentunsaved);
}

#[test]
fn record_wordcount_keeps_low_bits() {
    let mut d = data(None, false, false);
    assert_eq!(d.record_wordcount(2500), "2,500 words");
    assert_eq!(d.wordcount, 2500);
    if usize::BITS > 32 {
        let big: usize = (1usize << 32) + 3;
        assert_eq!(d.record_wordcount(big), "3 words");
        assert_eq!(d.wordcount, 3);
    }
}

#[test]
fn autosave_needs_switch_unsaved_text_and_file() {
    assert_eq!(data(Some("/f"), true, false).autosave_target().as_deref(), Some("/f"));
    assert_eq!(data(Some("/f"), true, true).autosave_target(), None);
    assert_eq!(data(Some("/f"), false, false).autosave_target(), None);
    assert_eq!(data(None, true, false).autosave_target(), None);
}

#[test]
fn mark_saved_clears_unsaved_only() {
    let mut d = data(Some("/f"), true, true);
    d.wordcount = 9;
    d.mark_saved();
    assert!(!d.contentunsaved);
    assert!(d.autosavedisabled);
    assert_eq!(d.wordcount, 9);
    assert_eq!(d.path.as_deref(), Some("/f"));
}

#[test]
fn save_target_follows_path() {
    assert!(matches!(data(Some("/f"), true, false).save_target(), SaveTarget::Known(p) if p == "/f"));
    assert!(matches!(data(None, true, false).save_target(), SaveTarget::Choose));
}

#[test]
fn guard_asks_only_for_unsaved_text() {
    assert!(matches!(data(None, true, false).guard_start(), GuardStep::AskToSave));
    assert!(matches!(data(None, false, false).guard_start(), GuardStep::Proceed));
}

#[test]
fn guard_answer_saves_on_yes_only() {
    let d = data(Some("/doc"), true, false);
    assert_eq!(ANSWER_YES, 0);
    assert!(matches!(d.guard_answer(Some(0)), GuardStep::SaveFirst(SaveTarget::Known(p)) if p == "/doc"));
    assert!(matches!(d.guard_answer(Some(1)), GuardStep::Proceed));
    assert!(matches!(d.guard_answer(None), GuardStep::Proceed));
    let n = data(None, true, false);
    assert!(matches!(n.guard_answer(Some(0)), GuardStep::SaveFirst(SaveTarget::Choose)));
}

#[test]
fn new_document_forgets_file() {
    let mut d = data(Some("/f"), true, true);
    d.wordcount = 12;
    d.start_new_document();
    assert_eq!(d.path, None);
    assert!(!d.contentunsaved);
    assert!(d.autosavedisabled);
    assert_eq!(d.wordcount, 12);
}

#[test]
fn adopt_path_refuses_invalid_paths() {
    let mut d = data(Some("/old"), true, false);
    assert_eq!(d.adopt_path(None), Err(FileError::InvalidPath));
    assert_eq!(d.path.as_deref(), Some("/old"));
    assert_eq!(FileError::InvalidPath.message(), "File path was not valid.");
    assert_eq!(d.adopt_path(Some("/new".to_string())), Ok(()));
    assert_eq!(d.path.as_deref(), Some("/new"));
    assert!(d.contentunsaved);
}

#[test]
fn autosave_switch_toggles() {
    let mut d = data(None, false, false);
    assert!(d.autosave_switch_state());
    let on = d.toggle_autosave(true);
    assert!(!on);
    assert!(d.autosavedisabled);
    assert!(!d.autosave_switch_state());
    let on = d.toggle_autosave(false);
    assert!(on);
    assert!(!d.autosavedisabled);
}

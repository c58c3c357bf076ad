use ropey::Rope;
use valin::hooks::use_computed::Memoized;
use valin::hooks::use_editable::{
    edit_key_action, has_any_highlight, EditCode, EditKey, EditKeyAction, EditorData, TextCursor,
};
use valin::hooks::use_manager::{SubscriptionModel, Subscribers};
use valin::lsp::LanguageId;

fn editor(text: &str) -> EditorData {
    EditorData::new("/p/notes.txt".to_string(), Rope::from_str(text), (0, 0), "/p".to_string())
}

#[test]
fn new_editor_takes_its_language_from_the_extension() {
    let e = EditorData::new("/p/src/main.rs".to_string(), Rope::from_str(""), (3, 4), "/p".to_string());
    assert_eq!(e.language_id, LanguageId::Rust);
    assert_eq!(e.cursor(), TextCursor::new(3, 4));
    assert_eq!(e.path(), "/p/src/main.rs");
    assert_eq!(e.root_path, "/p");
    assert!(!e.is_edited());
    assert_eq!(editor("").language_id, LanguageId::Unknown);
    let py = EditorData::new("script.py".to_string(), Rope::from_str(""), (0, 0), "/".to_string());
    assert_eq!(py.language_id, LanguageId::Python);
    let upper = EditorData::new("SCRIPT.PY".to_string(), Rope::from_str(""), (0, 0), "/".to_string());
    assert_eq!(upper.language_id, LanguageId::Unknown);
    let none = EditorData::new("Makefile".to_string(), Rope::from_str(""), (0, 0), "/".to_string());
    assert_eq!(none.language_id, LanguageId::Unknown);
}

#[test]
fn highlights_of_a_selection_downwards() {
    // Lines: "ab\n" (chars 0..3), "cd\n" (3..6), "ef" (6..8).
    let mut e = editor("ab\ncd\nef");
    assert_eq!(e.highlights(0), None);
    e.highlight_text(1, 1, 0);
    assert_eq!(e.cursor(), TextCursor::new(0, 1));
    e.highlight_text(0, 1, 2);
    assert_eq!(e.cursor(), TextCursor::new(2, 1));
    assert_eq!(e.highlights(0), Some((1, 3)));
    assert_eq!(e.highlights(1), Some((0, 3)));
    assert_eq!(e.highlights(2), Some((0, 1)));
    assert_eq!(e.highlights(3), None);
    assert_eq!(e.try_highlights(3), Some(None));
    assert_eq!(e.try_highlights(4), None);
}

#[test]
fn highlights_of_a_selection_upwards() {
    let mut e = editor("ab\ncd\nef");
    e.highlight_text(2, 2, 2);
    e.highlight_text(0, 1, 0);
    assert_eq!(e.highlights(2), Some((0, 2)));
    assert_eq!(e.highlights(1), Some((0, 3)));
    assert_eq!(e.highlights(0), Some((1, 3)));
}

#[test]
fn highlights_within_one_line() {
    let mut e = editor("ab\ncd\nef");
    e.highlight_text(1, 2, 1);
    assert_eq!(e.highlights(1), Some((1, 2)));
    assert_eq!(e.highlights(0), None);
    assert_eq!(e.highlights(2), None);
    e.unhighlight();
    assert_eq!(e.highlights(1), None);
}

#[test]
fn cursor_moves_to_a_byte() {
    let mut e = editor("ab\ncd\nef");
    e.move_cursor_to_idx(4);
    assert_eq!(e.cursor(), TextCursor::new(1, 1));
    e.move_cursor_to_idx(8);
    assert_eq!(e.cursor(), TextCursor::new(2, 2));
    assert!(!e.try_move_cursor_to_idx(9));
    assert_eq!(e.cursor(), TextCursor::new(2, 2));
    // Bytes, not characters: "é" takes two bytes.
    let mut wide = editor("é\nx");
    wide.move_cursor_to_idx(3);
    assert_eq!(wide.cursor(), TextCursor::new(1, 0));
}

#[test]
fn selection_follows_the_cursor() {
    let mut e = editor("ab\ncd\nef");
    e.move_cursor_to_idx(4);
    assert_eq!(e.cursor_pos(), 4);
    e.move_highlight_to_cursor();
    assert_eq!(e.highlights(1), Some((1, 1)));
    e.move_cursor_to_idx(7);
    assert!(e.try_move_highlight_to_cursor());
    assert_eq!(e.highlights(1), Some((1, 3)));
    assert_eq!(e.highlights(2), Some((0, 1)));
}

#[test]
fn highlight_flags() {
    assert!(!has_any_highlight(None));
    assert!(!has_any_highlight(Some((4, 4))));
    assert!(has_any_highlight(Some((4, 2))));
}

#[test]
fn keys_of_an_editor() {
    let plain = EditKey::Character("a".to_string());
    assert_eq!(edit_key_action(&plain, EditCode::Other, false, false, false), EditKeyAction::Edit);
    assert_eq!(edit_key_action(&EditKey::Escape, EditCode::Other, false, false, false), EditKeyAction::Ignore);
    let plus = EditKey::Character("+".to_string());
    assert_eq!(edit_key_action(&plus, EditCode::Other, true, false, false), EditKeyAction::Ignore);
    assert_eq!(edit_key_action(&plus, EditCode::Other, false, false, false), EditKeyAction::Edit);
    let e = EditKey::Character("e".to_string());
    assert_eq!(edit_key_action(&e, EditCode::Other, true, false, false), EditKeyAction::Ignore);
    let z = EditKey::Character("z".to_string());
    assert_eq!(edit_key_action(&z, EditCode::KeyZ, false, true, false), EditKeyAction::Undo);
    assert_eq!(edit_key_action(&z, EditCode::KeyY, false, true, false), EditKeyAction::Redo);
    assert_eq!(edit_key_action(&z, EditCode::KeyZ, false, false, false), EditKeyAction::Edit);
    assert_eq!(edit_key_action(&EditKey::Other, EditCode::Other, false, true, false), EditKeyAction::Edit);
    assert_eq!(edit_key_action(&z, EditCode::KeyZ, false, false, true), EditKeyAction::Undo);
    assert_eq!(edit_key_action(&z, EditCode::KeyY, false, false, true), EditKeyAction::Redo);
}

fn notified(subscribers: &Subscribers, model: SubscriptionModel) -> Vec<u64> {
    let mut scopes = subscribers.to_notify(model);
    scopes.sort();
    scopes
}

#[test]
fn subscribers_are_woken_by_their_model() {
    let mut subscribers = Subscribers::new(1);
    assert_eq!(subscribers.model_of(1), Some(SubscriptionModel::All));
    subscribers.subscribe(2, SubscriptionModel::follow_tab(0, 1));
    subscribers.subscribe(3, SubscriptionModel::All);
    assert_eq!(notified(&subscribers, SubscriptionModel::All), vec![1, 3]);
    assert_eq!(notified(&subscribers, SubscriptionModel::follow_tab(0, 1)), vec![2]);
    assert_eq!(notified(&subscribers, SubscriptionModel::follow_tab(1, 1)), Vec::<u64>::new());
    subscribers.update_model_if_necessary(9, SubscriptionModel::All);
    assert_eq!(subscribers.model_of(9), None);
    subscribers.update_model_if_necessary(2, SubscriptionModel::All);
    assert_eq!(notified(&subscribers, SubscriptionModel::All), vec![1, 2, 3]);
    subscribers.unsubscribe(1);
    assert_eq!(notified(&subscribers, SubscriptionModel::All), vec![2, 3]);
    assert_eq!(subscribers.model_of(1), None);
    subscribers.subscribe(3, SubscriptionModel::follow_tab(2, 0));
    assert_eq!(notified(&subscribers, SubscriptionModel::All), vec![2]);
}

#[test]
fn memoized_value_follows_its_dependencies() {
    let mut memo = Memoized::new(&1u32, |d: &u32| *d * 10);
    assert_eq!((memo.value, memo.deps), (10, 1));
    memo.refresh(&1, |d: &u32| *d * 100);
    assert_eq!((memo.value, memo.deps), (10, 1));
    memo.refresh(&2, |d: &u32| *d * 100);
    assert_eq!((memo.value, memo.deps), (200, 2));
}

#[test]
fn lines_end_at_every_unicode_line_break() {
    let mut e = editor("a\r\nbc\u{2028}d\u{0B}e");
    let mut at = |idx: usize| {
        e.move_cursor_to_idx(idx);
        (e.cursor().row(), e.cursor().col())
    };
    // A CR followed by LF ends one line, at the LF.
    assert_eq!(at(2), (0, 2));
    assert_eq!(at(4), (1, 1));
    // A byte inside a character counts as that character.
    assert_eq!(at(6), (1, 3));
    assert_eq!(at(8), (2, 0));
    assert_eq!(at(10), (3, 0));
}

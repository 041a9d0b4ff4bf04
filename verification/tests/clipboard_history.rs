use wyrd_shell::clipboard::{ClipboardState, OfferDecision, MAX_ENTRIES, MAX_IMAGE_ENTRIES};
use wyrd_shell::clipboard::{offer_decision, SelectOutcome};

#[test]
fn test_clipboard_state_dedup_and_move_to_front() {
    let mut state = ClipboardState::new();
    let id1 = state
        .add_text("First".to_string(), "text/plain".to_string())
        .unwrap();
    let id2 = state
        .add_text("Second".to_string(), "text/plain".to_string())
        .unwrap();
    assert_ne!(id1, id2);

    let entries = state.get_entries();
    assert_eq!(entries.len(), 2);
    assert_eq!(entries[0].text, "Second");
    assert_eq!(entries[1].text, "First");

    let id3 = state
        .add_text("First".to_string(), "text/plain".to_string())
        .unwrap();
    assert_eq!(id3, 3);
    let entries = state.get_entries();
    assert_eq!(entries.len(), 2);
    assert_eq!(entries[0].text, "First");
    assert_eq!(entries[0].id, id3);
    assert_eq!(entries[1].text, "Second");
    assert_eq!(entries[1].id, id2);
}

#[test]
fn test_clipboard_state_max_entries_cap() {
    let mut state = ClipboardState::new();
    for i in 0..100 {
        state.add_text(format!("Item {}", i), "text/plain".to_string());
    }
    let entries = state.get_entries();
    assert_eq!(entries.len(), MAX_ENTRIES);
    assert_eq!(entries[0].text, "Item 99");
    assert_eq!(
        entries[MAX_ENTRIES - 1].text,
        format!("Item {}", 100 - MAX_ENTRIES)
    );
}

#[test]
fn test_clipboard_image_entries_and_cap() {
    let mut state = ClipboardState::new();
    let bytes = vec![0x89, 0x50, 0x4E, 0x47];
    for i in 0..25 {
        state.add_image(format!("/tmp/shot_{}.png", i), bytes.clone());
    }

    assert_eq!(state.images.len(), MAX_IMAGE_ENTRIES);
    assert_eq!(state.images.front().unwrap().path, "/tmp/shot_24.png");

    let id = state.images.front().unwrap().id;
    let retrieved = state.get_image_by_id(id);
    assert!(retrieved.is_some());
    assert_eq!(retrieved.unwrap().path, "/tmp/shot_24.png");

    let id_new = state.add_image("/tmp/shot_20.png".to_string(), bytes.clone());
    assert_eq!(state.images.front().unwrap().path, "/tmp/shot_20.png");
    assert_eq!(state.images.front().unwrap().id, id_new);
    assert_eq!(state.images.len(), MAX_IMAGE_ENTRIES);
}

#[test]
fn blank_text_is_not_recorded() {
    let mut state = ClipboardState::new();
    assert_eq!(state.add_text("   \n\t".to_string(), "text/plain".to_string()), None);
    assert!(state.get_entries().is_empty());
}

#[test]
fn clear_empties_both_histories() {
    let mut state = ClipboardState::new();
    state.add_text("a".to_string(), "text/plain".to_string());
    state.add_image("/tmp/a.png".to_string(), vec![1, 2]);
    state.clear();
    assert!(state.get_entries().is_empty());
    assert!(state.images.is_empty());
    assert!(state.active_selection.is_none());
}

#[test]
fn entries_are_found_by_id() {
    let mut state = ClipboardState::new();
    let id = state.add_text("hello".to_string(), "text/plain".to_string()).unwrap();
    assert_eq!(state.get_entry_by_id(id).unwrap().text, "hello");
    assert!(state.get_entry_by_id(id + 100).is_none());
}

#[test]
fn loaded_history_continues_ids() {
    let mut state = ClipboardState::new();
    let mut other = ClipboardState::new();
    other.add_text("x".to_string(), "text/plain".to_string());
    other.add_text("y".to_string(), "text/plain".to_string());
    state.load_from_entries(other.get_entries());
    let id = state.add_text("z".to_string(), "text/plain".to_string()).unwrap();
    assert_eq!(id, 3);
}

#[test]
fn previews_are_newest_first_and_cut() {
    let mut state = ClipboardState::new();
    let long: String = std::iter::repeat('x').take(200).collect();
    state.add_text(long, "text/plain".to_string());
    let previews = state.previews();
    assert_eq!(previews.len(), 1);
    assert_eq!(previews[0].kind, "text");
    assert_eq!(previews[0].text_preview.chars().count(), 120);
}

#[test]
fn secret_offers_are_dropped_and_text_preferred() {
    let secret = vec!["text/plain".to_string(), "x-kde-passwordManagerHint".to_string()];
    assert_eq!(offer_decision(&secret), OfferDecision::Secret);
    let plain = vec!["UTF8_STRING".to_string(), "text/plain".to_string()];
    assert_eq!(offer_decision(&plain), OfferDecision::Read("text/plain"));
    let utf8 = vec!["text/plain".to_string(), "text/plain;charset=utf-8".to_string()];
    assert_eq!(offer_decision(&utf8), OfferDecision::Read("text/plain;charset=utf-8"));
    let none = vec!["image/png".to_string()];
    assert_eq!(offer_decision(&none), OfferDecision::Unsupported);
}

#[test]
fn select_finds_text_then_images() {
    let mut state = ClipboardState::new();
    let t = state.add_text("hello".to_string(), "text/plain".to_string()).unwrap();
    let with_bytes = state.add_image("/tmp/a.png".to_string(), vec![1, 2, 3]);
    let without = state.add_image("/tmp/b.png".to_string(), Vec::new());
    assert!(matches!(state.select_entry(t), SelectOutcome::Text(ref s) if s == "hello"));
    assert!(matches!(state.select_entry(with_bytes), SelectOutcome::Image(ref b) if b == &vec![1, 2, 3]));
    assert!(matches!(state.select_entry(without), SelectOutcome::ImageFile(ref p) if p == "/tmp/b.png"));
    assert!(matches!(state.select_entry(9999), SelectOutcome::NotFound));
}

use lander::inject::{
    build_request_steps, paste_text, ClipboardBridge, InjectionQueue, Key, KeyEvent, Platform,
    Request, Step,
};
use lander::panel::PanelController;

fn hidden_panel() -> PanelController {
    let mut panel = PanelController::new();
    panel.init_panel();
    panel
}

#[test]
fn replace_text_round_trips_the_clipboard() {
    // with "hello" on the clipboard, replacing with "world" leaves
    // "world" there immediately after the write step and "hello" again
    // once the full sequence has run
    let mut queue = InjectionQueue::new();
    let mut bridge = ClipboardBridge::new(String::from("hello"));
    let mut panel = hidden_panel();
    queue.replace_text("world");
    let trace = queue.run_pending(&mut bridge, &mut panel, Platform::MacOs);
    assert_eq!(bridge.get_text_from_clipboard(), "hello");

    let mut replay = ClipboardBridge::new(String::from("hello"));
    let mut write_seen = false;
    for step in &trace {
        replay.apply_step(step);
        if matches!(step, Step::WriteClipboard(_)) {
            assert_eq!(replay.get_text_from_clipboard(), "world");
            write_seen = true;
        }
    }
    assert!(write_seen);
    assert_eq!(replay.get_text_from_clipboard(), "hello");
}

#[test]
fn replace_steps_follow_the_prescribed_order() {
    let plan = build_request_steps(
        &Request::Replace(String::from("abc")),
        true,
        Platform::MacOs,
    );
    let mut expected = vec![
        Step::HidePanel,
        Step::Settle(lander::inject::FOCUS_SETTLE_DELAY_MS),
        Step::SnapshotClipboard,
        Step::WriteClipboard(String::from("abc")),
    ];
    for event in [
        KeyEvent::Down(Key::MetaLeft),
        KeyEvent::Down(Key::KeyV),
        KeyEvent::Up(Key::KeyV),
        KeyEvent::Up(Key::MetaLeft),
    ] {
        expected.push(Step::SendKey(event));
    }
    expected.push(Step::Settle(lander::inject::PASTE_SETTLE_DELAY_MS));
    expected.push(Step::RestoreClipboard);
    assert_eq!(plan, expected);
}

#[test]
fn insert_preamble_presses_and_releases_each_key() {
    let plan = build_request_steps(
        &Request::Insert(String::from("x")),
        false,
        Platform::Windows,
    );
    // hidden panel: no hide prefix; snapshot, write, then the key events
    assert_eq!(plan[0], Step::SnapshotClipboard);
    assert_eq!(plan[1], Step::WriteClipboard(String::from("x")));
    let keys: Vec<&Step> = plan
        .iter()
        .filter(|s| matches!(s, Step::SendKey(_)))
        .collect();
    let expected = [
        KeyEvent::Down(Key::RightArrow),
        KeyEvent::Up(Key::RightArrow),
        KeyEvent::Down(Key::Return),
        KeyEvent::Up(Key::Return),
        KeyEvent::Down(Key::Return),
        KeyEvent::Up(Key::Return),
        KeyEvent::Down(Key::ControlLeft),
        KeyEvent::Down(Key::KeyV),
        KeyEvent::Up(Key::KeyV),
        KeyEvent::Up(Key::ControlLeft),
    ];
    assert_eq!(keys.len(), expected.len());
    for (step, event) in keys.iter().zip(expected.iter()) {
        assert_eq!(**step, Step::SendKey(*event));
    }
}

#[test]
fn paste_shortcut_uses_the_platform_modifier() {
    let mac = paste_text(Platform::MacOs);
    assert_eq!(mac[0], KeyEvent::Down(Key::MetaLeft));
    assert_eq!(mac[3], KeyEvent::Up(Key::MetaLeft));
    let win = paste_text(Platform::Windows);
    assert_eq!(win[0], KeyEvent::Down(Key::ControlLeft));
    assert_eq!(win[3], KeyEvent::Up(Key::ControlLeft));
}

#[test]
fn overlapping_inserts_are_serialized() {
    // two overlapping insert requests are both queued before any step
    // runs; the drained trace is exactly the first request's steps
    // followed by the second's — no interleaving — and the clipboard
    // ends as it started
    let mut queue = InjectionQueue::new();
    queue.insert_text("first");
    queue.insert_text("second");
    let mut bridge = ClipboardBridge::new(String::from("prior"));
    let mut panel = hidden_panel();
    panel.show_panel();
    let trace = queue.run_pending(&mut bridge, &mut panel, Platform::MacOs);

    let mut expected = build_request_steps(
        &Request::Insert(String::from("first")),
        true,
        Platform::MacOs,
    );
    expected.extend(build_request_steps(
        &Request::Insert(String::from("second")),
        false,
        Platform::MacOs,
    ));
    assert_eq!(trace, expected);
    assert_eq!(bridge.get_text_from_clipboard(), "prior");
    assert!(!panel.panel_is_visible());
}

#[test]
fn queued_copy_writes_without_restore() {
    let mut queue = InjectionQueue::new();
    queue.copy_text_to_clipboard("kept");
    let mut bridge = ClipboardBridge::new(String::from("old"));
    let mut panel = hidden_panel();
    let trace = queue.run_pending(&mut bridge, &mut panel, Platform::MacOs);
    assert_eq!(trace, vec![Step::WriteClipboard(String::from("kept"))]);
    assert_eq!(bridge.get_text_from_clipboard(), "kept");
}

#[test]
fn clipboard_read_returns_current_content() {
    let bridge = ClipboardBridge::new(String::from("content"));
    assert_eq!(bridge.get_text_from_clipboard(), "content");
}

#[test]
fn unreadable_snapshot_restores_empty() {
    // an unreadable clipboard is handed to the bridge as empty prior
    // content; the restore step then leaves the clipboard empty
    let mut queue = InjectionQueue::new();
    queue.replace_text("paste");
    let mut bridge = ClipboardBridge::new(String::new());
    let mut panel = hidden_panel();
    queue.run_pending(&mut bridge, &mut panel, Platform::MacOs);
    assert_eq!(bridge.get_text_from_clipboard(), "");
}

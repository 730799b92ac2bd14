use kaput::browse::app::{AppState, BrowserApp, ModalState, PendingAction};
use kaput::browse::events::{
    browser_opened, clipboard_done, execute_file_action, handle_key, url_fetched, ClipboardOutcome, FileEffect, Key,
    KeyCode,
};
use kaput::put::files::{File, FileSize};

fn entry(id: i64, name: &str, file_type: &str, parent_id: i64) -> File {
    File {
        id,
        name: name.to_string(),
        file_type: file_type.to_string(),
        size: FileSize(10),
        created_at: String::new(),
        updated_at: String::new(),
        parent_id,
    }
}

fn key(code: KeyCode) -> Key {
    Key { code, control: false, other_modifiers: false }
}

fn ctrl(c: char) -> Key {
    Key { code: KeyCode::Char(c), control: true, other_modifiers: false }
}

fn ch(c: char) -> Key {
    key(KeyCode::Char(c))
}

fn browser() -> BrowserApp {
    let mut app = BrowserApp::new();
    app.set_files(vec![entry(1, "Movies", "FOLDER", 0), entry(2, "notes.txt", "TEXT", 0), entry(3, "trip.mp4", "VIDEO", 0)]);
    app
}

fn press(app: &mut BrowserApp, k: Key) -> FileEffect {
    handle_key(app, k, "TOKEN")
}

fn modal_text(app: &BrowserApp) -> Option<String> {
    match &app.modal {
        ModalState::Error(m) => Some(format!("error: {}", m)),
        ModalState::Success(m) => Some(format!("success: {}", m)),
        _ => None,
    }
}

#[test]
fn control_c_quits_from_anywhere() {
    let mut app = BrowserApp::new();
    press(&mut app, ctrl('c'));
    assert!(matches!(app.app_state, AppState::Quitting));
    // With another modifier held it is not an interrupt.
    let mut app = browser();
    press(&mut app, Key { code: KeyCode::Char('c'), control: true, other_modifiers: true });
    assert!(matches!(app.app_state, AppState::Browsing));
}

#[test]
fn keys_are_ignored_while_loading() {
    let mut app = BrowserApp::new();
    press(&mut app, ch('q'));
    assert!(matches!(app.app_state, AppState::Browsing));
    assert!(matches!(app.modal, ModalState::Loading));
}

#[test]
fn q_and_escape_quit_at_the_root() {
    let mut app = browser();
    press(&mut app, ch('q'));
    assert!(matches!(app.app_state, AppState::Quitting));
    let mut app = browser();
    press(&mut app, key(KeyCode::Esc));
    assert!(matches!(app.app_state, AppState::Quitting));
}

#[test]
fn enter_opens_a_folder_and_escape_comes_back() {
    let mut app = browser();
    assert_eq!(app.selected_file().map(|f| f.id), Some(1));
    app.needs_reload = false;
    press(&mut app, key(KeyCode::Enter));
    assert_eq!(app.current_folder_id, 1);
    assert_eq!(app.breadcrumbs.len(), 2);
    assert_eq!(app.breadcrumbs[1].name, "Movies");
    assert!(app.needs_reload);
    app.set_files(vec![]);
    app.needs_reload = false;
    press(&mut app, key(KeyCode::Esc));
    assert_eq!(app.current_folder_id, 0);
    assert!(app.needs_reload);
    assert!(matches!(app.app_state, AppState::Browsing));
}

#[test]
fn backspace_reloads_even_at_the_root() {
    let mut app = browser();
    app.needs_reload = false;
    press(&mut app, key(KeyCode::Backspace));
    assert!(app.needs_reload);
    assert_eq!(app.breadcrumbs.len(), 1);
}

#[test]
fn enter_on_a_file_offers_its_actions() {
    let mut app = browser();
    press(&mut app, ch('j'));
    press(&mut app, ch('j'));
    press(&mut app, key(KeyCode::Enter));
    match &app.modal {
        ModalState::FileActions { file_id, file_name, file_type, selected } => {
            assert_eq!(*file_id, 3);
            assert_eq!(file_name, "trip.mp4");
            assert_eq!(file_type, "VIDEO");
            assert_eq!(*selected, 0);
        }
        _ => panic!("expected the action menu"),
    }
    // Up from the first action wraps to the last of the six.
    press(&mut app, key(KeyCode::Up));
    assert!(matches!(app.modal, ModalState::FileActions { selected: 5, .. }));
    press(&mut app, ch('j'));
    assert!(matches!(app.modal, ModalState::FileActions { selected: 0, .. }));
    press(&mut app, key(KeyCode::Down));
    assert!(matches!(app.modal, ModalState::FileActions { selected: 1, .. }));
    // Enter runs the highlighted action: the stream address is copied.
    let effect = press(&mut app, key(KeyCode::Enter));
    assert!(matches!(app.modal, ModalState::Hidden));
    match effect {
        FileEffect::CopyText { text, success_msg } => {
            assert_eq!(text, "https://api.put.io/v2/files/3/stream?oauth_token=TOKEN");
            assert_eq!(success_msg, "Stream URL copied!");
        }
        _ => panic!("expected a copy"),
    }
}

#[test]
fn control_o_offers_actions_and_letters_run_them() {
    let mut app = browser();
    press(&mut app, ctrl('o'));
    assert!(matches!(app.modal, ModalState::FileActions { file_id: 1, .. }));
    let effect = press(&mut app, ch('z'));
    assert!(matches!(effect, FileEffect::Nothing));
    assert!(matches!(app.pending_action, PendingAction::Download { file_id: 1 }));
    assert!(matches!(app.modal, ModalState::Hidden));

    let mut app = browser();
    press(&mut app, ch('j'));
    press(&mut app, ctrl('o'));
    let effect = press(&mut app, ch('c'));
    assert!(matches!(effect, FileEffect::CopyUrlOf { file_id: 2 }));
    // A letter that names no action leaves the menu open.
    let mut app = browser();
    press(&mut app, ctrl('o'));
    let effect = press(&mut app, ch('y'));
    assert!(matches!(effect, FileEffect::Nothing));
    assert!(matches!(app.modal, ModalState::FileActions { .. }));
    press(&mut app, key(KeyCode::Esc));
    assert!(matches!(app.modal, ModalState::Hidden));
}

#[test]
fn file_actions_one_by_one() {
    let mut app = browser();
    match execute_file_action(&mut app, "Open in browser", 42, "VIDEO", "T") {
        FileEffect::OpenInBrowser { url } => assert_eq!(url, "https://app.put.io/files/42"),
        _ => panic!("expected a browser"),
    }
    match execute_file_action(&mut app, "Copy file ID", 42, "VIDEO", "T") {
        FileEffect::CopyText { text, success_msg } => {
            assert_eq!(text, "42");
            assert_eq!(success_msg, "File ID copied!");
        }
        _ => panic!("expected a copy"),
    }
    match execute_file_action(&mut app, "Copy folder ID", 7, "FOLDER", "T") {
        FileEffect::CopyText { text, success_msg } => {
            assert_eq!(text, "7");
            assert_eq!(success_msg, "Folder ID copied!");
        }
        _ => panic!("expected a copy"),
    }
    execute_file_action(&mut app, "Download", 3, "VIDEO", "T");
    assert!(matches!(app.pending_action, PendingAction::Download { file_id: 3 }));
    let mut app = browser();
    execute_file_action(&mut app, "Something else", 3, "VIDEO", "T");
    assert!(matches!(app.pending_action, PendingAction::Idle));
}

#[test]
fn copying_a_path() {
    let mut app = BrowserApp::new();
    app.set_files(vec![entry(9, "clip.mkv", "VIDEO", 44)]);
    execute_file_action(&mut app, "Copy path", 9, "VIDEO", "T");
    match &app.pending_action {
        PendingAction::CopyPath { file_name, parent_id } => {
            assert_eq!(file_name, "clip.mkv");
            assert_eq!(*parent_id, 44);
        }
        _ => panic!("expected a path lookup"),
    }
    assert_eq!(app.spinner_label, "Copying path...");
    assert!(matches!(app.modal, ModalState::Loading));

    let mut app = BrowserApp::new();
    app.set_files(vec![]);
    execute_file_action(&mut app, "Copy path", 9, "VIDEO", "T");
    assert_eq!(modal_text(&app), Some("error: File not found for path lookup.".to_string()));
}

#[test]
fn going_to_a_results_folder() {
    let mut app = BrowserApp::new();
    app.enter_search_results("x", vec![entry(9, "x.mkv", "VIDEO", 44)]);
    execute_file_action(&mut app, "Go to folder", 9, "VIDEO", "T");
    assert!(matches!(app.pending_action, PendingAction::GoToFolder { parent_id: 44, file_id: 9 }));
    execute_file_action(&mut app, "Go to folder", 10, "VIDEO", "T");
    assert!(matches!(app.pending_action, PendingAction::GoToFolder { parent_id: 0, file_id: 10 }));
}

#[test]
fn deleting_asks_first() {
    let mut app = browser();
    press(&mut app, ch('j'));
    press(&mut app, ch('x'));
    assert!(matches!(app.modal, ModalState::ConfirmDelete { file_id: 2, .. }));
    press(&mut app, ch('n'));
    assert!(matches!(app.modal, ModalState::Hidden));
    press(&mut app, ch('x'));
    press(&mut app, ch('q'));
    assert!(matches!(app.modal, ModalState::ConfirmDelete { .. }));
    assert!(matches!(app.app_state, AppState::Browsing));
    press(&mut app, ch('Y'));
    assert!(matches!(app.pending_action, PendingAction::Delete { file_id: 2 }));
    assert_eq!(app.spinner_label, "Deleting...");
    assert!(matches!(app.modal, ModalState::Loading));
    assert_eq!(app.restore_index, Some(1));
}

#[test]
fn typing_a_search() {
    let mut app = browser();
    press(&mut app, ctrl('f'));
    assert!(matches!(&app.modal, ModalState::SearchInput { query } if query.is_empty()));
    press(&mut app, key(KeyCode::Enter));
    assert!(matches!(app.modal, ModalState::Hidden));
    press(&mut app, ctrl('f'));
    for c in "cats".chars() {
        press(&mut app, ch(c));
    }
    press(&mut app, ctrl('x'));
    press(&mut app, key(KeyCode::Backspace));
    assert!(matches!(&app.modal, ModalState::SearchInput { query } if query == "cat"));
    press(&mut app, key(KeyCode::Enter));
    assert!(matches!(&app.pending_action, PendingAction::Search { query } if query == "cat"));
    assert_eq!(app.spinner_label, "Searching...");
    assert!(matches!(app.modal, ModalState::Loading));
}

#[test]
fn finding_in_the_listing() {
    let mut app = browser();
    press(&mut app, ch('/'));
    for c in "TRIP".chars() {
        press(&mut app, ch(c));
    }
    press(&mut app, key(KeyCode::Enter));
    assert!(matches!(app.modal, ModalState::Hidden));
    assert_eq!(app.last_search, Some("TRIP".to_string()));
    assert_eq!(app.selected_index, 2);
    app.selected_index = 0;
    press(&mut app, ch('n'));
    assert_eq!(app.selected_index, 2);
    press(&mut app, ch('/'));
    press(&mut app, key(KeyCode::Esc));
    assert!(matches!(app.modal, ModalState::Hidden));
}

#[test]
fn sort_keys() {
    let mut app = browser();
    press(&mut app, ch('s'));
    assert!(app.sort_field == kaput::browse::app::SortField::Size);
    press(&mut app, ch('r'));
    assert!(app.sort_direction == kaput::browse::app::SortDirection::Desc);
}

#[test]
fn any_key_closes_a_message() {
    let mut app = browser();
    app.modal = ModalState::Error("boom".to_string());
    press(&mut app, ch('q'));
    assert!(matches!(app.modal, ModalState::Hidden));
    assert!(matches!(app.app_state, AppState::Browsing));
}

#[test]
fn outcomes_of_outside_work() {
    let mut app = browser();
    match url_fetched(&mut app, Ok("https://dl/1".to_string())) {
        FileEffect::CopyText { text, success_msg } => {
            assert_eq!(text, "https://dl/1");
            assert_eq!(success_msg, "URL copied!");
        }
        _ => panic!("expected a copy"),
    }
    assert!(matches!(url_fetched(&mut app, Err("timeout".to_string())), FileEffect::Nothing));
    assert_eq!(modal_text(&app), Some("error: Failed to get URL: timeout".to_string()));
    clipboard_done(&mut app, ClipboardOutcome::Copied, "Done!");
    assert_eq!(modal_text(&app), Some("success: Done!".to_string()));
    clipboard_done(&mut app, ClipboardOutcome::Unavailable("no display".to_string()), "Done!");
    assert_eq!(modal_text(&app), Some("error: Clipboard unavailable: no display".to_string()));
    clipboard_done(&mut app, ClipboardOutcome::Failed("denied".to_string()), "Done!");
    assert_eq!(modal_text(&app), Some("error: Clipboard error: denied".to_string()));
    browser_opened(&mut app, Ok(()));
    assert_eq!(modal_text(&app), Some("success: Opening in browser...".to_string()));
    browser_opened(&mut app, Err("not found".to_string()));
    assert_eq!(modal_text(&app), Some("error: Could not open browser: not found".to_string()));
}

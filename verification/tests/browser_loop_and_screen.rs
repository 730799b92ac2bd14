use kaput::browse::app::{BrowserApp, ModalState, PendingAction, SortField};
use kaput::browse::events::{handle_key, Key, KeyCode};
use kaput::browse::ui::{
    action_menu, centered_rect, file_row, highlight_parts, file_type_color, find_cursor_x, highlight_span, search_cursor_x, sort_label,
    spinner_text, truncate, Rect, TypeColor,
};
use kaput::browse::{
    begin_frame, finish_copy_path, finish_delete, finish_load, finish_search, is_quitting, join_strings, next_step,
    LoopStep, PathStep, PathWalk,
};
use kaput::put::files::{File, FileSize, FilesResponse};

fn entry(id: i64, name: &str, file_type: &str, parent_id: i64) -> File {
    File {
        id,
        name: name.to_string(),
        file_type: file_type.to_string(),
        size: FileSize(1_230),
        created_at: String::new(),
        updated_at: String::new(),
        parent_id,
    }
}

fn listing(parent: File, files: Vec<File>) -> FilesResponse {
    FilesResponse { files, parent }
}

#[test]
fn the_spinner_ticks_and_wraps() {
    let mut app = BrowserApp::new();
    begin_frame(&mut app);
    assert_eq!(app.tick, 1);
    app.tick = 255;
    begin_frame(&mut app);
    assert_eq!(app.tick, 0);
}

#[test]
fn the_first_step_loads_the_root() {
    let mut app = BrowserApp::new();
    match next_step(&mut app) {
        LoopStep::LoadFolder { folder_id } => assert_eq!(folder_id, 0),
        _ => panic!("expected a load"),
    }
    assert!(!app.needs_reload);
    assert!(matches!(app.modal, ModalState::Loading));
    finish_load(&mut app, Ok(listing(entry(0, "root", "FOLDER", 0), vec![entry(5, "b", "VIDEO", 0), entry(4, "a", "VIDEO", 0)])));
    assert_eq!(app.files.iter().map(|f| f.id).collect::<Vec<_>>(), vec![4, 5]);
    assert_eq!(app.breadcrumbs[0].name, "My Files");
    assert!(matches!(app.modal, ModalState::Hidden));
    assert!(matches!(next_step(&mut app), LoopStep::Poll));
}

#[test]
fn a_reload_shows_the_spinner() {
    let mut app = BrowserApp::new();
    finish_load(&mut app, Ok(listing(entry(0, "root", "FOLDER", 0), vec![])));
    app.needs_reload = true;
    assert!(matches!(next_step(&mut app), LoopStep::LoadFolder { folder_id: 0 }));
    assert_eq!(app.spinner_label, "Loading...");
    assert!(matches!(app.modal, ModalState::Loading));
}

#[test]
fn loading_a_folder_names_its_breadcrumb() {
    let mut app = BrowserApp::new();
    app.navigate_to_folder(8, 3);
    finish_load(&mut app, Ok(listing(entry(8, "Holidays", "FOLDER", 0), vec![entry(3, "x", "VIDEO", 8)])));
    assert_eq!(app.breadcrumbs[1].name, "Holidays");
    assert_eq!(app.selected_index, 0);
    finish_load(&mut app, Err("offline".to_string()));
    assert!(matches!(&app.modal, ModalState::Error(m) if m == "offline"));
}

#[test]
fn pending_actions_become_steps() {
    let mut app = BrowserApp::new();
    assert!(matches!(next_step(&mut app), LoopStep::LoadFolder { folder_id: 0 }));
    finish_load(&mut app, Ok(listing(entry(0, "root", "FOLDER", 0), vec![])));
    app.pending_action = PendingAction::Search { query: "cat".to_string() };
    assert!(matches!(next_step(&mut app), LoopStep::Search { ref query } if query == "cat"));
    assert!(matches!(app.pending_action, PendingAction::Idle));
    app.pending_action = PendingAction::Delete { file_id: 4 };
    assert!(matches!(next_step(&mut app), LoopStep::Delete { file_id: 4 }));
    app.pending_action = PendingAction::Download { file_id: 6 };
    assert!(matches!(next_step(&mut app), LoopStep::Download { file_id: 6 }));
    app.pending_action = PendingAction::CopyPath { file_name: "f".to_string(), parent_id: 2 };
    assert!(matches!(next_step(&mut app), LoopStep::CopyPath { parent_id: 2, .. }));
    app.pending_action = PendingAction::GoToFolder { parent_id: 12, file_id: 13 };
    assert!(matches!(next_step(&mut app), LoopStep::Poll));
    assert_eq!(app.current_folder_id, 12);
    assert_eq!(app.pending_select_id, Some(13));
    assert!(app.needs_reload);
    assert!(matches!(next_step(&mut app), LoopStep::LoadFolder { folder_id: 12 }));
    app.app_state = kaput::browse::app::AppState::Quitting;
    assert!(is_quitting(&app));
    assert!(matches!(next_step(&mut app), LoopStep::Quit));
}

#[test]
fn search_and_delete_outcomes() {
    let mut app = BrowserApp::new();
    finish_search(&mut app, "dog", Ok(vec![entry(1, "dog", "VIDEO", 0)]));
    assert!(app.is_search_results);
    assert_eq!(app.breadcrumbs[1].name, "Search: dog");
    finish_search(&mut app, "dog", Err("500".to_string()));
    assert!(matches!(&app.modal, ModalState::Error(m) if m == "Search failed: 500"));
    finish_delete(&mut app, Err("403".to_string()));
    assert!(matches!(&app.modal, ModalState::Error(m) if m == "Delete failed: 403"));
    app.needs_reload = false;
    finish_delete(&mut app, Ok(()));
    assert!(app.needs_reload);
    assert_eq!(app.spinner_label, "Loading...");
}

#[test]
fn copy_path_outcomes() {
    let mut app = BrowserApp::new();
    let path = finish_copy_path(&mut app, "clip.mkv".to_string(), Ok(vec!["Movies".to_string(), "2024".to_string()]));
    assert_eq!(path, Some("Movies/2024/clip.mkv".to_string()));
    let path = finish_copy_path(&mut app, "top.txt".to_string(), Ok(vec![]));
    assert_eq!(path, Some("top.txt".to_string()));
    let path = finish_copy_path(&mut app, "x".to_string(), Err("Path lookup failed: boom".to_string()));
    assert_eq!(path, None);
    assert!(matches!(&app.modal, ModalState::Error(m) if m == "Path lookup failed: boom"));
    assert_eq!(join_strings(&vec!["a".to_string(), "b".to_string()], ", "), "a, b");
}

#[test]
fn path_lookup_walks_to_the_root() {
    let (mut walk, step) = PathWalk::begin(30);
    assert!(matches!(step, PathStep::Fetch(30)));
    let step = walk.receive(Ok(("Season 1".to_string(), 20)));
    assert!(matches!(step, PathStep::Fetch(20)));
    let step = walk.receive(Ok(("Show".to_string(), 0)));
    match step {
        PathStep::Done(names) => assert_eq!(names, vec!["Show".to_string(), "Season 1".to_string()]),
        _ => panic!("expected the path"),
    }
    let (_, step) = PathWalk::begin(0);
    assert!(matches!(step, PathStep::Done(ref names) if names.is_empty()));
}

#[test]
fn path_lookup_failures() {
    let (_, step) = PathWalk::begin(-2);
    assert!(matches!(step, PathStep::Failed(ref m) if m == "Path lookup failed: invalid parent id."));
    let (mut walk, _) = PathWalk::begin(5);
    let step = walk.receive(Err("timeout".to_string()));
    assert!(matches!(step, PathStep::Failed(ref m) if m == "Path lookup failed: timeout"));
    let (mut walk, _) = PathWalk::begin(5);
    let step = walk.receive(Ok((String::new(), 1)));
    assert!(matches!(step, PathStep::Failed(ref m) if m == "Path lookup failed: missing folder name."));
    let (mut walk, _) = PathWalk::begin(5);
    let step = walk.receive(Ok(("loop".to_string(), 5)));
    assert!(matches!(step, PathStep::Failed(ref m) if m == "Path lookup failed: parent loop detected."));
}

#[test]
fn path_lookup_stops_after_256_folders() {
    let (mut walk, mut step) = PathWalk::begin(1);
    let mut fetches = 0;
    let mut next_id = 2;
    loop {
        match step {
            PathStep::Fetch(_) => {
                fetches += 1;
                step = walk.receive(Ok((format!("d{}", next_id), next_id)));
                next_id += 1;
            }
            PathStep::Failed(m) => {
                assert_eq!(m, "Path lookup failed: path too deep.");
                break;
            }
            PathStep::Done(_) => panic!("the chain never reaches the root"),
        }
    }
    assert_eq!(fetches, 256);
}

#[test]
fn truncating_names() {
    assert_eq!(truncate("short.txt", 24), "short.txt");
    assert_eq!(truncate("abcdefghij.txt", 10), "abcde\u{2026}.txt");
    assert_eq!(truncate("abcdefghijklmnop", 5), "abcd\u{2026}");
    assert_eq!(truncate("abc", 0), "");
    assert_eq!(truncate("abc", 1), "\u{2026}");
    assert_eq!(truncate(".hiddenfile", 5), ".hid\u{2026}");
    assert_eq!(truncate("name.", 3), "na\u{2026}");
    // An extension as long as the limit is cut like the rest.
    assert_eq!(truncate("a.verylongext", 8), "a.veryl\u{2026}");
    assert_eq!(truncate("ééééé.mkv", 7), "éé\u{2026}.mkv");
    assert_eq!(truncate("ab.cd", 5), "ab.cd");
}

#[test]
fn highlighting_matches() {
    assert_eq!(highlight_span("Hello World", "world"), Some((6, 11)));
    assert_eq!(highlight_span("Hello", "he"), Some((0, 2)));
    assert_eq!(highlight_span("Hello", "xyz"), None);
    assert_eq!(highlight_span("Hello", ""), None);
    assert_eq!(highlight_span("Café au lait", "AU"), Some((6, 8)));
    // Lower-casing changes the byte length here, so the position found in the
    // lower-cased name does not end on a boundary of the name: no highlight.
    assert_eq!(highlight_span("\u{130}ab", "ab"), None);
}

#[test]
fn popups_are_centred() {
    let r = centered_rect(50, 5, Rect { x: 0, y: 0, width: 80, height: 24 });
    assert_eq!((r.x, r.y, r.width, r.height), (20, 9, 40, 5));
    let r = centered_rect(38, 30, Rect { x: 2, y: 1, width: 10, height: 10 });
    assert_eq!((r.x, r.y, r.width, r.height), (5, 1, 3, 10));
}

#[test]
fn spinner_frames() {
    assert_eq!(spinner_text(0, "Loading..."), "\u{280b} Loading...");
    assert_eq!(spinner_text(13, "x"), "\u{2838} x");
    assert_eq!(spinner_text(255, "x"), "\u{2834} x");
}

#[test]
fn colours_and_labels() {
    assert!(file_type_color("FOLDER") == TypeColor::LightYellow);
    assert!(file_type_color("VIDEO") == TypeColor::Green);
    assert!(file_type_color("AUDIO") == TypeColor::Magenta);
    assert!(file_type_color("IMAGE") == TypeColor::Cyan);
    assert!(file_type_color("ARCHIVE") == TypeColor::Red);
    assert!(file_type_color("PDF") == TypeColor::Red);
    assert!(file_type_color("TEXT") == TypeColor::Gray);
    assert_eq!(sort_label(SortField::Name), "Name    ");
    assert_eq!(sort_label(SortField::Modified), "Modified");
}

#[test]
fn file_rows() {
    let row = file_row(&entry(1, "movie.mkv", "VIDEO", 0), true);
    assert_eq!(row.cursor, ">>");
    assert_eq!(row.name, "movie.mkv");
    assert_eq!(row.padding, 64 - 9 + 1);
    assert_eq!(row.size, "1.23 KB");
    let row = file_row(&entry(2, "Folder", "FOLDER", 0), false);
    assert_eq!(row.cursor, "  ");
    assert_eq!(row.size, "\u{2014}");
    let long = "x".repeat(100);
    let row = file_row(&entry(3, &long, "TEXT", 0), false);
    assert_eq!(row.name.chars().count(), 64);
    assert_eq!(row.padding, 1);
}

#[test]
fn cursor_positions() {
    assert_eq!(find_cursor_x(3, 80), 4);
    assert_eq!(find_cursor_x(200, 80), 79);
    assert_eq!(find_cursor_x(0, 0), 0);
    let inner = Rect { x: 10, y: 5, width: 20, height: 1 };
    assert_eq!(search_cursor_x(inner, 4), 14);
    assert_eq!(search_cursor_x(inner, 50), 29);
}

#[test]
fn truncated_names_never_exceed_the_limit() {
    for max in 0..12usize {
        for name in ["", "a", "report.pdf", "a.b.c.d.e.f", "no_extension_here", "ééééé.mkv"] {
            let t = truncate(name, max);
            let n = t.chars().count();
            assert!(n <= max);
            if name.chars().count() <= max {
                assert_eq!(t, name);
            } else {
                assert_eq!(n, max);
                if max > 0 {
                    assert!(t.contains('\u{2026}'));
                }
            }
        }
    }
}

#[test]
fn the_cursor_stays_put_after_a_deletion() {
    let press = |app: &mut BrowserApp, c: char| {
        handle_key(app, Key { code: KeyCode::Char(c), control: false, other_modifiers: false }, "TOKEN");
    };
    let mut app = BrowserApp::new();
    let first = next_step(&mut app);
    assert!(matches!(first, LoopStep::LoadFolder { folder_id: 0 }));
    let files = (1..=4).map(|i| entry(i, &format!("file{}", i), "TEXT", 0)).collect();
    finish_load(&mut app, Ok(listing(entry(0, "root", "FOLDER", 0), files)));
    press(&mut app, 'j');
    press(&mut app, 'j');
    assert_eq!(app.selected_index, 2);
    press(&mut app, 'x');
    press(&mut app, 'y');
    assert!(matches!(next_step(&mut app), LoopStep::Delete { file_id: 3 }));
    finish_delete(&mut app, Ok(()));
    assert!(matches!(next_step(&mut app), LoopStep::LoadFolder { folder_id: 0 }));
    let remaining = vec![entry(1, "file1", "TEXT", 0), entry(2, "file2", "TEXT", 0), entry(4, "file4", "TEXT", 0)];
    finish_load(&mut app, Ok(listing(entry(0, "root", "FOLDER", 0), remaining)));
    assert_eq!(app.selected_index, 2);
    assert_eq!(app.list_state.selected, Some(2));
    assert!(matches!(app.modal, ModalState::Hidden));

    // Deleting the last row leaves the cursor on the new last row.
    press(&mut app, 'x');
    press(&mut app, 'y');
    assert!(matches!(next_step(&mut app), LoopStep::Delete { file_id: 4 }));
    finish_delete(&mut app, Ok(()));
    assert!(matches!(next_step(&mut app), LoopStep::LoadFolder { folder_id: 0 }));
    let remaining = vec![entry(1, "file1", "TEXT", 0), entry(2, "file2", "TEXT", 0)];
    finish_load(&mut app, Ok(listing(entry(0, "root", "FOLDER", 0), remaining)));
    assert_eq!(app.selected_index, 1);
}

#[test]
fn highlighted_pieces() {
    let parts = |n: &str, q: &str| -> Vec<(String, bool)> { highlight_parts(n, q) };
    let p = |t: &str, m: bool| (t.to_string(), m);
    assert_eq!(parts("Hello World", "world"), vec![p("Hello ", false), p("World", true)]);
    assert_eq!(parts("Hello", "he"), vec![p("He", true), p("llo", false)]);
    assert_eq!(parts("a cat here", "CAT"), vec![p("a ", false), p("cat", true), p(" here", false)]);
    assert_eq!(parts("abc", "abc"), vec![p("abc", true)]);
    assert_eq!(parts("Hello", "xyz"), vec![p("Hello", false)]);
    assert_eq!(parts("Hello", ""), vec![p("Hello", false)]);
    assert_eq!(parts("Crème brûlée", "BRÛ"), vec![p("Crème ", false), p("brû", true), p("lée", false)]);
    // Put together, the pieces always give the name back.
    for (n, q) in [("Hello World", "o"), ("ÉCOLE", "école"), ("x", "y"), ("", "a")] {
        let joined: String = parts(n, q).into_iter().map(|(t, _)| t).collect();
        assert_eq!(joined, n);
    }
}

#[test]
fn action_menus() {
    let menu = action_menu("FOLDER", false, 1, 30);
    assert_eq!(menu.height, 8);
    assert_eq!(menu.rows.len(), 4);
    assert_eq!(menu.rows[0].cursor, "   ");
    assert_eq!(menu.rows[0].key, "[z] ");
    assert_eq!(menu.rows[0].label, "Download as zip");
    assert_eq!(menu.rows[0].padding, 30 - 7 - 15);
    assert!(!menu.rows[0].selected);
    assert_eq!(menu.rows[1].cursor, " \u{25b6} ");
    assert!(menu.rows[1].selected);
    assert_eq!(menu.rows[1].label, "Open in browser");
    let narrow = action_menu("VIDEO", true, 0, 10);
    assert_eq!(narrow.height, 11);
    assert_eq!(narrow.rows.len(), 7);
    assert_eq!(narrow.rows[6].key, "[g] ");
    assert_eq!(narrow.rows[6].padding, 0);
    assert_eq!(narrow.rows[0].padding, 0);
    assert_eq!(action_menu("VIDEO", true, 0, 20).rows[0].padding, 20 - 7 - 8);
}

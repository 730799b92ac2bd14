use kaput::browse::app::{
    file_actions_for, AppState, BrowserApp, ModalState, PendingAction, SortDirection, SortField,
};
use kaput::put::files::{File, FileSize};

fn file(id: i64, name: &str, size: u64, created: &str, updated: &str) -> File {
    File {
        id,
        name: name.to_string(),
        file_type: "VIDEO".to_string(),
        size: FileSize(size),
        created_at: created.to_string(),
        updated_at: updated.to_string(),
        parent_id: 0,
    }
}

fn folder(id: i64, name: &str) -> File {
    File {
        id,
        name: name.to_string(),
        file_type: "FOLDER".to_string(),
        size: FileSize(0),
        created_at: String::new(),
        updated_at: String::new(),
        parent_id: 0,
    }
}

fn ids(app: &BrowserApp) -> Vec<i64> {
    app.files.iter().map(|f| f.id).collect()
}

fn numbered(n: i64) -> Vec<File> {
    (0..n).map(|i| file(i, &format!("f{:03}", i), 0, "", "")).collect()
}

fn labels(file_type: &str, in_search: bool) -> Vec<(&'static str, char)> {
    file_actions_for(file_type, in_search).iter().map(|a| (a.label, a.key)).collect()
}

#[test]
fn actions_for_each_type() {
    assert_eq!(
        labels("FOLDER", false),
        vec![("Download as zip", 'z'), ("Open in browser", 'b'), ("Copy path", 'p'), ("Copy folder ID", 'i')]
    );
    assert_eq!(
        labels("VIDEO", false),
        vec![
            ("Copy URL", 'c'),
            ("Copy Stream URL", 's'),
            ("Download", 'd'),
            ("Open in browser", 'b'),
            ("Copy path", 'p'),
            ("Copy file ID", 'i'),
        ]
    );
    assert_eq!(
        labels("PDF", true),
        vec![
            ("Copy URL", 'c'),
            ("Download", 'd'),
            ("Open in browser", 'b'),
            ("Copy path", 'p'),
            ("Copy file ID", 'i'),
            ("Go to folder", 'g'),
        ]
    );
    assert_eq!(labels("FOLDER", true).last(), Some(&("Go to folder", 'g')));
}

#[test]
fn a_new_browser_loads_the_root() {
    let app = BrowserApp::new();
    assert_eq!(app.current_folder_id, 0);
    assert_eq!(app.breadcrumbs.len(), 1);
    assert_eq!(app.breadcrumbs[0].name, "My Files");
    assert!(matches!(app.modal, ModalState::Loading));
    assert!(matches!(app.pending_action, PendingAction::Idle));
    assert!(matches!(app.app_state, AppState::Browsing));
    assert!(app.needs_reload);
    assert_eq!(app.spinner_label, "Loading...");
    assert_eq!(app.list_state.selected, Some(0));
    assert!(app.sort_field == SortField::Name && app.sort_direction == SortDirection::Asc);
}

#[test]
fn listings_are_sorted_by_name_without_case() {
    let mut app = BrowserApp::new();
    app.set_files(vec![file(1, "banana", 0, "", ""), file(2, "Apple", 0, "", ""), file(3, "cherry", 0, "", "")]);
    assert_eq!(ids(&app), vec![2, 1, 3]);
    assert!(matches!(app.modal, ModalState::Hidden));
    app.toggle_sort_direction();
    assert_eq!(ids(&app), vec![3, 1, 2]);
    assert!(app.sort_direction == SortDirection::Desc);
}

#[test]
fn sorting_is_stable_both_ways() {
    let mut app = BrowserApp::new();
    app.set_files(vec![
        file(1, "same", 0, "", ""),
        file(2, "other", 0, "", ""),
        file(3, "SAME", 0, "", ""),
        file(4, "Same", 0, "", ""),
    ]);
    assert_eq!(ids(&app), vec![2, 1, 3, 4]);
    app.toggle_sort_direction();
    // Equal names keep their order even in descending order.
    assert_eq!(ids(&app), vec![1, 3, 4, 2]);
}

#[test]
fn cycling_sort_fields() {
    let mut app = BrowserApp::new();
    app.set_files(vec![
        file(1, "a", 300, "2024-03-01", "2024-01-01"),
        file(2, "b", 100, "2024-01-01", "2024-03-01"),
        file(3, "c", 200, "2024-02-01", "2024-02-01"),
    ]);
    app.selected_index = 2;
    app.cycle_sort_field();
    assert!(app.sort_field == SortField::Size);
    assert_eq!(ids(&app), vec![2, 3, 1]);
    assert_eq!(app.selected_index, 0);
    app.cycle_sort_field();
    assert!(app.sort_field == SortField::Date);
    assert_eq!(ids(&app), vec![2, 3, 1]);
    app.cycle_sort_field();
    assert!(app.sort_field == SortField::Modified);
    assert_eq!(ids(&app), vec![1, 3, 2]);
    app.cycle_sort_field();
    assert!(app.sort_field == SortField::Name);
    assert_eq!(ids(&app), vec![1, 2, 3]);
}

#[test]
fn cursor_movement() {
    let mut app = BrowserApp::new();
    app.set_files(numbered(25));
    assert_eq!(app.selected_index, 0);
    app.move_up();
    assert_eq!(app.selected_index, 0);
    app.move_down();
    assert_eq!(app.selected_index, 1);
    app.move_page_down();
    assert_eq!(app.selected_index, 11);
    app.move_page_down();
    app.move_page_down();
    assert_eq!(app.selected_index, 24);
    app.move_down();
    assert_eq!(app.selected_index, 24);
    app.move_page_up();
    assert_eq!(app.selected_index, 14);
    app.move_page_up();
    app.move_page_up();
    assert_eq!(app.selected_index, 0);
    assert_eq!(app.list_state.selected, Some(0));
    assert_eq!(app.selected_file().map(|f| f.id), Some(0));
}

#[test]
fn moving_down_then_up_returns() {
    let mut app = BrowserApp::new();
    app.set_files(numbered(5));
    app.selected_index = 2;
    app.move_down();
    app.move_up();
    assert_eq!(app.selected_index, 2);
}

#[test]
fn page_moves_in_an_empty_listing() {
    let mut app = BrowserApp::new();
    app.set_files(vec![]);
    app.move_page_down();
    app.move_down();
    assert_eq!(app.selected_index, 0);
    assert!(app.selected_file().is_none());
}

#[test]
fn find_wraps_around() {
    let mut app = BrowserApp::new();
    app.set_files(vec![
        file(1, "Alpha", 0, "", ""),
        file(2, "beta", 0, "", ""),
        file(3, "ALPHABET", 0, "", ""),
        file(4, "gamma", 0, "", ""),
    ]);
    // Sorted: Alpha, ALPHABET, beta, gamma.
    assert_eq!(ids(&app), vec![1, 3, 2, 4]);
    assert!(app.find_next_with("alpha"));
    assert_eq!(app.selected_index, 1);
    assert!(app.find_next_with("alpha"));
    assert_eq!(app.selected_index, 0);
    assert!(!app.find_next_with("zeta"));
    assert_eq!(app.selected_index, 0);
    assert!(!app.find_next_with(""));
    // A single match is found again from itself.
    app.selected_index = 3;
    assert!(app.find_next_with("GAM"));
    assert_eq!(app.selected_index, 3);
    assert_eq!(app.list_state.selected, Some(3));
}

#[test]
fn find_next_repeats_the_last_search() {
    let mut app = BrowserApp::new();
    app.set_files(vec![file(1, "x1", 0, "", ""), file(2, "y", 0, "", ""), file(3, "x2", 0, "", "")]);
    assert!(!app.find_next());
    app.last_search = Some("x".to_string());
    assert!(app.find_next());
    assert_eq!(ids(&app), vec![1, 3, 2]);
    assert_eq!(app.selected_index, 1);
}

#[test]
fn the_cursor_comes_back_after_visiting_a_folder() {
    let mut app = BrowserApp::new();
    app.set_files(numbered(30));
    app.selected_index = 17;
    app.list_state.offset = 9;
    app.enter_folder(55, "Sub".to_string());
    assert_eq!(app.current_folder_id, 55);
    assert_eq!(app.breadcrumbs.len(), 2);
    assert_eq!(app.breadcrumbs[0].saved_index, 17);
    assert_eq!(app.breadcrumbs[0].saved_offset, 9);
    assert!(app.files.is_empty());
    assert!(matches!(app.modal, ModalState::Loading));
    app.set_files(numbered(3));
    app.move_down();
    app.go_back();
    assert_eq!(app.current_folder_id, 0);
    assert_eq!(app.breadcrumbs.len(), 1);
    assert_eq!(app.restore_index, Some(17));
    assert_eq!(app.restore_offset, Some(9));
    app.set_files(numbered(30));
    assert_eq!(app.selected_index, 17);
    assert_eq!(app.list_state.offset, 9);
    assert_eq!(app.list_state.selected, Some(17));
    assert_eq!(app.restore_index, None);
}

#[test]
fn the_cursor_stays_inside_a_shorter_listing() {
    let mut app = BrowserApp::new();
    app.set_files(numbered(30));
    app.selected_index = 20;
    app.list_state.offset = 15;
    app.save_position_for_reload();
    app.set_files(numbered(5));
    assert_eq!(app.selected_index, 4);
    assert_eq!(app.list_state.offset, 4);
}

#[test]
fn going_back_at_the_root_does_nothing() {
    let mut app = BrowserApp::new();
    app.set_files(numbered(3));
    app.selected_index = 2;
    app.go_back();
    assert_eq!(app.selected_index, 2);
    assert_eq!(app.breadcrumbs.len(), 1);
    assert!(matches!(app.modal, ModalState::Hidden));
}

#[test]
fn search_results_and_back() {
    let mut app = BrowserApp::new();
    app.set_files(numbered(10));
    app.selected_index = 6;
    app.enter_search_results("cat", vec![file(100, "cat.jpg", 0, "", ""), file(101, "a", 0, "", "")]);
    assert!(app.is_search_results);
    assert_eq!(app.breadcrumbs.len(), 2);
    assert_eq!(app.breadcrumbs[1].id, -1);
    assert_eq!(app.breadcrumbs[1].name, "Search: cat");
    // Search results are shown as given, unsorted.
    assert_eq!(ids(&app), vec![100, 101]);
    assert_eq!(app.selected_index, 0);
    app.enter_search_results("dog", vec![file(200, "dog", 0, "", "")]);
    assert_eq!(app.breadcrumbs.len(), 2);
    assert_eq!(app.breadcrumbs[1].name, "Search: dog");
    app.go_back();
    assert!(!app.is_search_results);
    assert_eq!(app.current_folder_id, 0);
    assert_eq!(app.restore_index, Some(6));
    app.set_files(numbered(10));
    assert_eq!(app.selected_index, 6);
}

#[test]
fn going_to_a_file_in_its_folder() {
    let mut app = BrowserApp::new();
    app.set_files(numbered(3));
    app.enter_folder(5, "A".to_string());
    app.set_files(numbered(2));
    app.enter_search_results("q", vec![]);
    app.navigate_to_folder(8, 2);
    assert_eq!(app.breadcrumbs.len(), 2);
    assert_eq!(app.breadcrumbs[0].saved_index, 0);
    assert_eq!(app.breadcrumbs[1].id, 8);
    assert_eq!(app.breadcrumbs[1].name, "...");
    assert_eq!(app.current_folder_id, 8);
    assert!(!app.is_search_results);
    assert_eq!(app.pending_select_id, Some(2));
    app.set_files(vec![file(9, "z", 0, "", ""), file(2, "b", 0, "", ""), file(1, "a", 0, "", "")]);
    assert_eq!(ids(&app), vec![1, 2, 9]);
    assert_eq!(app.selected_index, 1);
    assert_eq!(app.pending_select_id, None);
}

#[test]
fn going_to_a_file_at_the_root() {
    let mut app = BrowserApp::new();
    app.enter_folder(5, "A".to_string());
    app.navigate_to_folder(0, 3);
    assert_eq!(app.breadcrumbs.len(), 1);
    assert_eq!(app.current_folder_id, 0);
    app.set_files(numbered(2));
    // The file is not in the listing: the cursor goes to the top.
    assert_eq!(app.selected_index, 0);
}

#[test]
fn resetting_to_the_root() {
    let mut app = BrowserApp::new();
    app.set_files(numbered(4));
    app.selected_index = 3;
    app.enter_folder(5, "A".to_string());
    app.enter_folder(6, "B".to_string());
    app.reset_to_root();
    assert_eq!(app.breadcrumbs.len(), 1);
    assert_eq!(app.breadcrumbs[0].saved_index, 0);
    assert_eq!(app.current_folder_id, 0);
}

#[test]
fn folders_and_files_in_listings() {
    let mut app = BrowserApp::new();
    app.set_files(vec![folder(1, "b"), file(2, "a", 1, "", "")]);
    assert_eq!(ids(&app), vec![2, 1]);
}

#[test]
fn sorting_an_ordered_listing_changes_nothing() {
    let mut app = BrowserApp::new();
    app.set_files(vec![
        file(1, "same", 0, "", ""),
        file(2, "other", 0, "", ""),
        file(3, "SAME", 0, "", ""),
        file(4, "alpha", 0, "", ""),
    ]);
    assert_eq!(ids(&app), vec![4, 2, 1, 3]);
    // The same files, handed over again in the order shown.
    app.set_files(vec![
        file(4, "alpha", 0, "", ""),
        file(2, "other", 0, "", ""),
        file(1, "same", 0, "", ""),
        file(3, "SAME", 0, "", ""),
    ]);
    assert_eq!(ids(&app), vec![4, 2, 1, 3]);
}

#[test]
fn the_same_listing_is_always_shown_the_same_way() {
    let listing = || {
        vec![
            file(1, "b", 30, "2024-01-02", ""),
            file(2, "a", 10, "2024-01-01", ""),
            file(3, "B", 30, "2024-01-03", ""),
        ]
    };
    let mut first = BrowserApp::new();
    let mut second = BrowserApp::new();
    first.set_files(listing());
    second.set_files(listing());
    assert_eq!(ids(&first), ids(&second));
    first.cycle_sort_field();
    second.cycle_sort_field();
    assert_eq!(ids(&first), vec![2, 1, 3]);
    assert_eq!(ids(&first), ids(&second));
}

#[test]
fn every_action_has_its_own_key() {
    for file_type in ["FOLDER", "VIDEO", "AUDIO", "TEXT", ""] {
        for in_search in [false, true] {
            let keys: Vec<char> = labels(file_type, in_search).iter().map(|(_, k)| *k).collect();
            for i in 0..keys.len() {
                for j in (i + 1)..keys.len() {
                    assert_ne!(keys[i], keys[j]);
                }
            }
        }
    }
}

#[test]
fn a_search_from_a_folder_among_results_adds_a_crumb() {
    let mut app = BrowserApp::new();
    app.set_files(numbered(3));
    app.enter_search_results("cat", vec![folder(100, "Cats"), file(101, "a", 0, "", "")]);
    assert!(app.is_search_results);
    app.enter_folder(100, "Cats".to_string());
    assert!(!app.is_search_results);
    assert_eq!(app.breadcrumbs.len(), 3);
    app.set_files(numbered(2));
    app.enter_search_results("dog", vec![file(200, "dog", 0, "", "")]);
    assert_eq!(app.breadcrumbs.len(), 4);
    assert_eq!(app.breadcrumbs[2].id, 100);
    assert_eq!(app.breadcrumbs[2].name, "Cats");
    assert_eq!(app.breadcrumbs[3].id, -1);
    assert_eq!(app.breadcrumbs[3].name, "Search: dog");
    // Going back leaves the new results for the folder.
    app.go_back();
    assert_eq!(app.current_folder_id, 100);
}

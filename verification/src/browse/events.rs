//! How the browser reacts to a key, and what the file actions ask of the
//! world outside (the clipboard, a web browser, the service).
use vstd::prelude::*;

use crate::browse::app::{
    AppState, BrowserApp, ModalState, PendingAction, actions_view, entered_folder, file_actions_for,
    file_actions_spec, find_result, found_next, moved_down, moved_page_down, moved_page_up, moved_up,
    sort_direction_toggled, sort_field_cycled, went_back,
};
use crate::put::files::{File, folder_type};
use crate::text::{concat2, concat3, decimal, i64_to_decimal, owned, pop_char, push_char, push_str, same_text};

verus! {

/// A key as the browser sees it.
#[derive(Clone, Copy, PartialEq, Eq, Structural)]
pub enum KeyCode {
    Char(char),
    Up,
    Down,
    Left,
    Enter,
    Esc,
    Backspace,
    Other,
}

/// A key press: the key, whether Control was held, and whether any other
/// modifier (Shift, Alt, ...) was held.
#[derive(Clone, Copy)]
pub struct Key {
    pub code: KeyCode,
    pub control: bool,
    pub other_modifiers: bool,
}

/// What a file action asks of the world outside once the browser's state
/// has been updated.
pub enum FileEffect {
    /// Nothing more to do.
    Nothing,
    /// Fetch the file's download address, then copy it (see `url_fetched`).
    CopyUrlOf { file_id: i64 },
    /// Copy `text` to the clipboard and report `success_msg` on success
    /// (see `clipboard_done`).
    CopyText { text: String, success_msg: String },
    /// Open `url` in a web browser (see `browser_opened`).
    OpenInBrowser { url: String },
}

/// How an attempt to use the clipboard ended.
pub enum ClipboardOutcome {
    Copied,
    /// The clipboard could not be opened; the error's text.
    Unavailable(String),
    /// The text could not be set; the error's text.
    Failed(String),
}

/// `effect` asks to copy `text`, reporting `msg`.
pub open spec fn copies(effect: FileEffect, text: Seq<char>, msg: Seq<char>) -> bool {
    effect matches FileEffect::CopyText { text: t, success_msg: m } && t@ == text && m@ == msg
}

/// Whether some file in the listing has the id.
pub open spec fn has_file(files: Seq<File>, id: i64) -> bool {
    exists|k: int| 0 <= k < files.len() && files[k].id == id
}

/// The first file in the listing with the id (meaningful when there is one).
pub open spec fn first_file(files: Seq<File>, id: i64) -> File {
    files[crate::browse::app::index_of_id(files, id)]
}

/// What running the file action labelled `action` on file `file_id` does
/// to the browser and asks of the world outside.
pub open spec fn action_result(old: BrowserApp, action: Seq<char>, file_id: i64, api_token: Seq<char>, new: BrowserApp, effect: FileEffect) -> bool {
    if action == "Copy URL"@ {
        new == old && effect == (FileEffect::CopyUrlOf { file_id })
    } else if action == "Copy Stream URL"@ {
        new == old && copies(effect,
            "https://api.put.io/v2/files/"@ + decimal(file_id as int) + "/stream?oauth_token="@ + api_token,
            "Stream URL copied!"@)
    } else if action == "Download"@ || action == "Download as zip"@ {
        new == (BrowserApp { pending_action: PendingAction::Download { file_id }, ..old }) && effect is Nothing
    } else if action == "Open in browser"@ {
        &&& new == old
        &&& effect matches FileEffect::OpenInBrowser { url } && url@ == "https://app.put.io/files/"@ + decimal(file_id as int)
    } else if action == "Copy file ID"@ {
        new == old && copies(effect, decimal(file_id as int), "File ID copied!"@)
    } else if action == "Copy folder ID"@ {
        new == old && copies(effect, decimal(file_id as int), "Folder ID copied!"@)
    } else if action == "Copy path"@ {
        &&& effect is Nothing
        &&& if has_file(old.files@, file_id) {
            let f = first_file(old.files@, file_id);
            &&& new.pending_action matches PendingAction::CopyPath { file_name, parent_id }
                && file_name == f.name && parent_id == f.parent_id
            &&& new.spinner_label@ == "Copying path..."@
            &&& new == (BrowserApp {
                pending_action: new.pending_action,
                spinner_label: new.spinner_label,
                modal: ModalState::Loading,
                ..old
            })
        } else {
            &&& new.modal matches ModalState::Error(m) && m@ == "File not found for path lookup."@
            &&& new == (BrowserApp { modal: new.modal, ..old })
        }
    } else if action == "Go to folder"@ {
        let parent_id = if has_file(old.files@, file_id) { first_file(old.files@, file_id).parent_id } else { 0 };
        new == (BrowserApp { pending_action: PendingAction::GoToFolder { parent_id, file_id }, ..old }) && effect is Nothing
    } else {
        new == old && effect is Nothing
    }
}

/// `old` with its overlay replaced.
pub open spec fn with_modal(old: BrowserApp, m: ModalState) -> BrowserApp {
    BrowserApp { modal: m, ..old }
}

/// `old` about to quit.
pub open spec fn quitting(old: BrowserApp) -> BrowserApp {
    BrowserApp { app_state: AppState::Quitting, ..old }
}

/// `mid` with a reload of the current folder requested.
pub open spec fn then_reload(mid: BrowserApp) -> BrowserApp {
    BrowserApp { needs_reload: true, ..mid }
}

/// A query after Backspace: without its last character, if it has one.
pub open spec fn backspaced(q: Seq<char>) -> Seq<char> {
    if q.len() > 0 { q.drop_last() } else { q }
}

/// The position of the first action run by key `c`, if any.
pub open spec fn action_for_key(actions: Seq<(Seq<char>, char)>, c: char) -> Option<int> {
    if exists|i: int| 0 <= i < actions.len() && actions[i].1 == c && forall|j: int| 0 <= j < i ==> actions[j].1 != c {
        Some(choose|i: int| 0 <= i < actions.len() && actions[i].1 == c && forall|j: int| 0 <= j < i ==> actions[j].1 != c)
    } else {
        None
    }
}

/// A key while the actions of a file are offered: Up/k and Down/j move
/// through them (wrapping around), Enter runs the highlighted one, a
/// letter runs the action it names, Esc closes the menu.
pub open spec fn file_actions_key(old: BrowserApp, key: Key, api_token: Seq<char>, new: BrowserApp, effect: FileEffect,
    file_id: i64, file_name: String, file_type: String, selected: usize) -> bool {
    let actions = file_actions_spec(file_type@, old.is_search_results);
    let n = actions.len() as int;
    let up = with_modal(old, ModalState::FileActions {
        file_id, file_name, file_type, selected: if selected == 0 { (n - 1) as usize } else { (selected - 1) as usize } });
    let down = with_modal(old, ModalState::FileActions {
        file_id, file_name, file_type, selected: ((selected + 1) % n) as usize });
    let closed = with_modal(old, ModalState::Hidden);
    match key.code {
        KeyCode::Up => new == up && effect is Nothing,
        KeyCode::Down => new == down && effect is Nothing,
        KeyCode::Enter => action_result(closed, actions[selected as int].0, file_id, api_token, new, effect),
        KeyCode::Char(c) => {
            if c == 'k' {
                new == up && effect is Nothing
            } else if c == 'j' {
                new == down && effect is Nothing
            } else {
                match action_for_key(actions, c) {
                    Some(i) => action_result(closed, actions[i].0, file_id, api_token, new, effect),
                    None => new == old && effect is Nothing,
                }
            }
        },
        KeyCode::Esc => new == closed && effect is Nothing,
        _ => new == old && effect is Nothing,
    }
}

/// A key while a search of the account is being typed: Esc cancels, Enter
/// starts the search (or closes the box when it is empty), Backspace and
/// characters typed without Control edit the query.
pub open spec fn search_input_key(old: BrowserApp, key: Key, new: BrowserApp, query: String) -> bool {
    match key.code {
        KeyCode::Esc => new == with_modal(old, ModalState::Hidden),
        KeyCode::Enter => if query@.len() > 0 {
            &&& new.spinner_label@ == "Searching..."@
            &&& new == (BrowserApp {
                pending_action: PendingAction::Search { query },
                spinner_label: new.spinner_label,
                modal: ModalState::Loading,
                ..old
            })
        } else {
            new == with_modal(old, ModalState::Hidden)
        },
        KeyCode::Backspace => new.modal matches ModalState::SearchInput { query: q } && q@ == backspaced(query@)
            && new == with_modal(old, new.modal),
        KeyCode::Char(c) => if !key.control {
            new.modal matches ModalState::SearchInput { query: q } && q@ == query@.push(c) && new == with_modal(old, new.modal)
        } else {
            new == old
        },
        _ => new == old,
    }
}

/// A key while a name to find in the listing is being typed: Esc cancels,
/// Enter closes the bar and, for a non-empty query, remembers it and moves
/// to the next match; Backspace and characters typed without Control edit
/// the query.
pub open spec fn find_key(old: BrowserApp, key: Key, new: BrowserApp, query: String) -> bool {
    match key.code {
        KeyCode::Esc => new == with_modal(old, ModalState::Hidden),
        KeyCode::Enter => {
            let closed = with_modal(old, ModalState::Hidden);
            if query@.len() > 0 {
                exists|found: bool| #[trigger] find_result(BrowserApp { last_search: Some(query), ..closed }, query@, new, found)
            } else {
                new == closed
            }
        },
        KeyCode::Backspace => new.modal matches ModalState::Find { query: q } && q@ == backspaced(query@)
            && new == with_modal(old, new.modal),
        KeyCode::Char(c) => if !key.control {
            new.modal matches ModalState::Find { query: q } && q@ == query@.push(c) && new == with_modal(old, new.modal)
        } else {
            new == old
        },
        _ => new == old,
    }
}

/// Offers the actions of the file under the cursor, if any.
pub open spec fn offers_actions(old: BrowserApp, new: BrowserApp) -> bool {
    if old.selected_index < old.files@.len() {
        let f = old.files@[old.selected_index as int];
        new == with_modal(old, ModalState::FileActions { file_id: f.id, file_name: f.name, file_type: f.file_type, selected: 0 })
    } else {
        new == old
    }
}

/// Goes up a level and asks for the listing.
pub open spec fn back_and_reload(old: BrowserApp, new: BrowserApp) -> bool {
    exists|mid: BrowserApp| #[trigger] went_back(old, mid) && new == then_reload(mid)
}

/// A key while browsing: q quits; Esc goes up a level (quits at the root);
/// Up/k, Down/j, Ctrl-U and Ctrl-D move the cursor; Ctrl-O offers the
/// file's actions; Enter opens a folder or offers a file's actions;
/// Left/Backspace go up a level; / finds in the listing; Ctrl-F searches the
/// account; n finds the next match; s and r change the order; x asks to
/// delete the file.
pub open spec fn browsing_key(old: BrowserApp, key: Key, new: BrowserApp) -> bool {
    match key.code {
        KeyCode::Char(c) => {
            if c == 'q' {
                new == quitting(old)
            } else if c == 'k' {
                moved_up(old, new)
            } else if c == 'j' {
                moved_down(old, new)
            } else if c == 'u' && key.control {
                moved_page_up(old, new)
            } else if c == 'd' && key.control {
                moved_page_down(old, new)
            } else if c == 'o' && key.control {
                offers_actions(old, new)
            } else if c == '/' {
                new.modal matches ModalState::Find { query } && query@.len() == 0 && new == with_modal(old, new.modal)
            } else if c == 'f' && key.control {
                new.modal matches ModalState::SearchInput { query } && query@.len() == 0 && new == with_modal(old, new.modal)
            } else if c == 'n' {
                exists|found: bool| #[trigger] found_next(old, new, found)
            } else if c == 's' {
                sort_field_cycled(old, new)
            } else if c == 'r' {
                sort_direction_toggled(old, new)
            } else if c == 'x' {
                if old.selected_index < old.files@.len() {
                    let f = old.files@[old.selected_index as int];
                    new == with_modal(old, ModalState::ConfirmDelete { file_id: f.id, file_name: f.name })
                } else {
                    new == old
                }
            } else {
                new == old
            }
        },
        KeyCode::Esc => if old.breadcrumbs@.len() > 1 { back_and_reload(old, new) } else { new == quitting(old) },
        KeyCode::Up => moved_up(old, new),
        KeyCode::Down => moved_down(old, new),
        KeyCode::Enter => {
            if old.selected_index < old.files@.len() {
                let f = old.files@[old.selected_index as int];
                if f.file_type@ == folder_type() {
                    exists|mid: BrowserApp| #[trigger] entered_folder(old, f.id, f.name, mid) && new == then_reload(mid)
                } else {
                    new == with_modal(old, ModalState::FileActions { file_id: f.id, file_name: f.name, file_type: f.file_type, selected: 0 })
                }
            } else {
                new == old
            }
        },
        KeyCode::Left | KeyCode::Backspace => back_and_reload(old, new),
        KeyCode::Other => new == old,
    }
}

/// Whether the key is Control-C (with no other modifier).
pub open spec fn is_interrupt(key: Key) -> bool {
    key.control && !key.other_modifiers && key.code == KeyCode::Char('c')
}

/// What a key press does to the browser and asks of the world outside.
/// Control-C always quits; otherwise it depends on what is shown: nothing
/// happens while loading, any key closes a message, a deletion asks for
/// y or n, and the other overlays and plain browsing are as their own
/// predicates say.
pub open spec fn key_handled(old: BrowserApp, key: Key, api_token: Seq<char>, new: BrowserApp, effect: FileEffect) -> bool {
    if is_interrupt(key) {
        new == quitting(old) && effect is Nothing
    } else {
        match old.modal {
            ModalState::Loading => new == old && effect is Nothing,
            ModalState::Error(_) => new == with_modal(old, ModalState::Hidden) && effect is Nothing,
            ModalState::Success(_) => new == with_modal(old, ModalState::Hidden) && effect is Nothing,
            ModalState::ConfirmDelete { file_id, file_name } => {
                &&& effect is Nothing
                &&& if key.code == KeyCode::Char('y') || key.code == KeyCode::Char('Y') {
                    &&& new.spinner_label@ == "Deleting..."@
                    &&& new == (BrowserApp {
                        restore_index: Some(old.selected_index),
                        restore_offset: Some(old.list_state.offset),
                        pending_action: PendingAction::Delete { file_id },
                        spinner_label: new.spinner_label,
                        modal: ModalState::Loading,
                        ..old
                    })
                } else if key.code == KeyCode::Char('n') || key.code == KeyCode::Char('N') || key.code == KeyCode::Esc {
                    new == with_modal(old, ModalState::Hidden)
                } else {
                    new == old
                }
            },
            ModalState::FileActions { file_id, file_name, file_type, selected } =>
                file_actions_key(old, key, api_token, new, effect, file_id, file_name, file_type, selected),
            ModalState::SearchInput { query } => search_input_key(old, key, new, query) && effect is Nothing,
            ModalState::Find { query } => find_key(old, key, new, query) && effect is Nothing,
            ModalState::Hidden => browsing_key(old, key, new) && effect is Nothing,
        }
    }
}

/// The keys that the browser can take: not Enter on an action menu whose
/// highlighted row is past its end, nor Down on one whose row number cannot
/// be incremented (there is no row to run or to move to).
pub open spec fn key_acceptable(app: BrowserApp, key: Key) -> bool {
    app.modal matches ModalState::FileActions { file_type, selected, .. } ==> {
        let n = file_actions_spec(file_type@, app.is_search_results).len();
        &&& (key.code == KeyCode::Enter && !is_interrupt(key)) ==> selected < n
        &&& (key.code == KeyCode::Down || key.code == KeyCode::Char('j')) ==> selected < usize::MAX
    }
}

/// The first file in the listing with the id, if any.
fn find_file(files: &Vec<File>, id: i64) -> (res: Option<usize>)
    ensures
        has_file(files@, id) ==> res == Some(crate::browse::app::index_of_id(files@, id) as usize),
        !has_file(files@, id) ==> res is None,
        res matches Some(k) ==> k < files@.len() && files@[k as int].id == id,
{
    let mut k: usize = 0;
    while k < files.len()
        invariant
            k <= files@.len(),
            forall|j: int| 0 <= j < k ==> files@[j].id != id,
        decreases files@.len() - k,
    {
        if files[k].id == id {
            proof {
                let c = choose|c: int| 0 <= c < files@.len() && files@[c].id == id && forall|j: int| 0 <= j < c ==> files@[j].id != id;
                assert(0 <= c < files@.len() && files@[c].id == id && forall|j: int| 0 <= j < c ==> files@[j].id != id);
                if c < k {
                } else if c > k {
                    assert(files@[k as int].id == id);
                }
            }
            return Some(k);
        }
        k = k + 1;
    }
    None
}

fn copy_text(text: String, msg: &str) -> (res: FileEffect)
    ensures
        copies(res, text@, msg@),
{
    FileEffect::CopyText { text, success_msg: owned(msg) }
}

/// Runs the file action labelled `action` on file `file_id`: updates the
/// browser and says what else is to be done.
pub fn execute_file_action(app: &mut BrowserApp, action: &str, file_id: i64, file_type: &str, api_token: &str) -> (effect: FileEffect)
    ensures
        action_result(*old(app), action@, file_id, api_token@, *final(app), effect),
{
    proof {
        reveal_strlit("Copy URL");
        reveal_strlit("Copy Stream URL");
        reveal_strlit("Download");
        reveal_strlit("Download as zip");
        reveal_strlit("Open in browser");
        reveal_strlit("Copy file ID");
        reveal_strlit("Copy folder ID");
        reveal_strlit("Copy path");
        reveal_strlit("Go to folder");
    }
    let _ = file_type;
    if same_text(action, "Copy URL") {
        FileEffect::CopyUrlOf { file_id }
    } else if same_text(action, "Copy Stream URL") {
        let id = i64_to_decimal(file_id);
        let mut url = concat3("https://api.put.io/v2/files/", id.as_str(), "/stream?oauth_token=");
        push_str(&mut url, api_token);
        copy_text(url, "Stream URL copied!")
    } else if same_text(action, "Download") || same_text(action, "Download as zip") {
        app.pending_action = PendingAction::Download { file_id };
        FileEffect::Nothing
    } else if same_text(action, "Open in browser") {
        let id = i64_to_decimal(file_id);
        FileEffect::OpenInBrowser { url: concat2("https://app.put.io/files/", id.as_str()) }
    } else if same_text(action, "Copy file ID") {
        copy_text(i64_to_decimal(file_id), "File ID copied!")
    } else if same_text(action, "Copy folder ID") {
        copy_text(i64_to_decimal(file_id), "Folder ID copied!")
    } else if same_text(action, "Copy path") {
        match find_file(&app.files, file_id) {
            Some(k) => {
                let file_name = app.files[k].name.clone();
                let parent_id = app.files[k].parent_id;
                app.pending_action = PendingAction::CopyPath { file_name, parent_id };
                app.spinner_label = owned("Copying path...");
                app.modal = ModalState::Loading;
            },
            None => {
                app.modal = ModalState::Error(owned("File not found for path lookup."));
            },
        }
        FileEffect::Nothing
    } else if same_text(action, "Go to folder") {
        let parent_id = match find_file(&app.files, file_id) {
            Some(k) => app.files[k].parent_id,
            None => 0,
        };
        app.pending_action = PendingAction::GoToFolder { parent_id, file_id };
        FileEffect::Nothing
    } else {
        FileEffect::Nothing
    }
}

/// The download address has been fetched, or fetching it failed: on success
/// it is to be copied with "URL copied!"; on failure the error is shown.
pub fn url_fetched(app: &mut BrowserApp, result: Result<String, String>) -> (effect: FileEffect)
    ensures
        match result {
            Ok(url) => *final(app) == *old(app) && copies(effect, url@, "URL copied!"@),
            Err(e) => {
                &&& effect is Nothing
                &&& final(app).modal matches ModalState::Error(m) && m@ == "Failed to get URL: "@ + e@
                &&& *final(app) == (BrowserApp { modal: final(app).modal, ..*old(app) })
            },
        },
{
    match result {
        Ok(url) => copy_text(url, "URL copied!"),
        Err(e) => {
            app.modal = ModalState::Error(concat2("Failed to get URL: ", e.as_str()));
            FileEffect::Nothing
        },
    }
}

/// Shows how copying to the clipboard went.
pub fn clipboard_done(app: &mut BrowserApp, outcome: ClipboardOutcome, success_msg: &str)
    ensures
        *final(app) == (BrowserApp { modal: final(app).modal, ..*old(app) }),
        match outcome {
            ClipboardOutcome::Copied => final(app).modal matches ModalState::Success(m) && m@ == success_msg@,
            ClipboardOutcome::Unavailable(e) => final(app).modal matches ModalState::Error(m) && m@ == "Clipboard unavailable: "@ + e@,
            ClipboardOutcome::Failed(e) => final(app).modal matches ModalState::Error(m) && m@ == "Clipboard error: "@ + e@,
        },
{
    app.modal = match outcome {
        ClipboardOutcome::Copied => ModalState::Success(owned(success_msg)),
        ClipboardOutcome::Unavailable(e) => ModalState::Error(concat2("Clipboard unavailable: ", e.as_str())),
        ClipboardOutcome::Failed(e) => ModalState::Error(concat2("Clipboard error: ", e.as_str())),
    };
}

/// Shows whether a web browser could be started.
pub fn browser_opened(app: &mut BrowserApp, result: Result<(), String>)
    ensures
        *final(app) == (BrowserApp { modal: final(app).modal, ..*old(app) }),
        match result {
            Ok(_) => final(app).modal matches ModalState::Success(m) && m@ == "Opening in browser..."@,
            Err(e) => final(app).modal matches ModalState::Error(m) && m@ == "Could not open browser: "@ + e@,
        },
{
    app.modal = match result {
        Ok(_) => ModalState::Success(owned("Opening in browser...")),
        Err(e) => ModalState::Error(concat2("Could not open browser: ", e.as_str())),
    };
}

/// A copy of the overlay, so that the browser can change while it is examined.
fn modal_snapshot(m: &ModalState) -> (res: ModalState)
    ensures
        res == *m,
{
    match m {
        ModalState::Hidden => ModalState::Hidden,
        ModalState::Loading => ModalState::Loading,
        ModalState::ConfirmDelete { file_id, file_name } => ModalState::ConfirmDelete { file_id: *file_id, file_name: file_name.clone() },
        ModalState::FileActions { file_id, file_name, file_type, selected } => ModalState::FileActions {
            file_id: *file_id,
            file_name: file_name.clone(),
            file_type: file_type.clone(),
            selected: *selected,
        },
        ModalState::Find { query } => ModalState::Find { query: query.clone() },
        ModalState::SearchInput { query } => ModalState::SearchInput { query: query.clone() },
        ModalState::Error(msg) => ModalState::Error(msg.clone()),
        ModalState::Success(msg) => ModalState::Success(msg.clone()),
    }
}

/// The first action run by key `c`, if any.
fn find_action_key(actions: &Vec<crate::browse::app::FileAction>, c: char) -> (res: Option<usize>)
    ensures
        match action_for_key(actions_view(actions@), c) {
            Some(i) => res == Some(i as usize),
            None => res is None,
        },
        res matches Some(i) ==> i < actions@.len(),
{
    let ghost v = actions_view(actions@);
    let mut i: usize = 0;
    while i < actions.len()
        invariant
            v == actions_view(actions@),
            i <= actions@.len(),
            forall|j: int| 0 <= j < i ==> v[j].1 != c,
        decreases actions@.len() - i,
    {
        if actions[i].key == c {
            proof {
                assert(v[i as int].1 == c);
                let w = choose|w: int| 0 <= w < v.len() && v[w].1 == c && forall|j: int| 0 <= j < w ==> v[j].1 != c;
                assert(0 <= w < v.len() && v[w].1 == c && forall|j: int| 0 <= j < w ==> v[j].1 != c);
                if w < i {
                } else if w > i {
                    assert(v[i as int].1 == c);
                }
            }
            return Some(i);
        }
        i = i + 1;
    }
    None
}

fn handle_file_actions_key(
    app: &mut BrowserApp,
    key: Key,
    api_token: &str,
    file_id: i64,
    file_name: String,
    file_type: String,
    selected: usize,
) -> (effect: FileEffect)
    requires
        old(app).wf(),
        key_acceptable(*old(app), key),
        !is_interrupt(key),
        old(app).modal == (ModalState::FileActions { file_id, file_name, file_type, selected }),
    ensures
        final(app).wf(),
        file_actions_key(*old(app), key, api_token@, *final(app), effect, file_id, file_name, file_type, selected),
{
    let actions = file_actions_for(file_type.as_str(), app.is_search_results);
    let n = actions.len();
    proof {
        assert(actions_view(actions@).len() == actions@.len());
        assert(file_actions_spec(file_type@, app.is_search_results).len() >= 4);
    }
    let is_up = match key.code { KeyCode::Up => true, KeyCode::Char(c) => c == 'k', _ => false };
    let is_down = match key.code { KeyCode::Down => true, KeyCode::Char(c) => c == 'j', _ => false };
    if is_up {
        let new_sel = if selected == 0 { n - 1 } else { selected - 1 };
        app.modal = ModalState::FileActions { file_id, file_name, file_type, selected: new_sel };
        return FileEffect::Nothing;
    }
    if is_down {
        let new_sel = (selected + 1) % n;
        app.modal = ModalState::FileActions { file_id, file_name, file_type, selected: new_sel };
        return FileEffect::Nothing;
    }
    match key.code {
        KeyCode::Enter => {
            let label = actions[selected].label;
            app.modal = ModalState::Hidden;
            execute_file_action(app, label, file_id, file_type.as_str(), api_token)
        },
        KeyCode::Char(c) => {
            match find_action_key(&actions, c) {
                Some(i) => {
                    let label = actions[i].label;
                    app.modal = ModalState::Hidden;
                    execute_file_action(app, label, file_id, file_type.as_str(), api_token)
                },
                None => FileEffect::Nothing,
            }
        },
        KeyCode::Esc => {
            app.modal = ModalState::Hidden;
            FileEffect::Nothing
        },
        _ => FileEffect::Nothing,
    }
}

fn handle_search_input_key(app: &mut BrowserApp, key: Key, query: String)
    requires
        old(app).wf(),
        old(app).modal == (ModalState::SearchInput { query }),
    ensures
        final(app).wf(),
        search_input_key(*old(app), key, *final(app), query),
{
    match key.code {
        KeyCode::Esc => {
            app.modal = ModalState::Hidden;
        },
        KeyCode::Enter => {
            if !query.as_str().is_empty() {
                app.pending_action = PendingAction::Search { query };
                app.spinner_label = owned("Searching...");
                app.modal = ModalState::Loading;
            } else {
                app.modal = ModalState::Hidden;
            }
        },
        KeyCode::Backspace => {
            let mut q = query;
            pop_char(&mut q);
            app.modal = ModalState::SearchInput { query: q };
        },
        KeyCode::Char(c) => {
            if !key.control {
                let mut q = query;
                push_char(&mut q, c);
                app.modal = ModalState::SearchInput { query: q };
            }
        },
        _ => {},
    }
}

fn handle_find_key(app: &mut BrowserApp, key: Key, query: String)
    requires
        old(app).wf(),
        old(app).modal == (ModalState::Find { query }),
    ensures
        final(app).wf(),
        find_key(*old(app), key, *final(app), query),
{
    match key.code {
        KeyCode::Esc => {
            app.modal = ModalState::Hidden;
        },
        KeyCode::Enter => {
            app.modal = ModalState::Hidden;
            if !query.as_str().is_empty() {
                app.last_search = Some(query.clone());
                let ghost closed = *app;
                let found = app.find_next_with(query.as_str());
                proof {
                    assert(find_result(closed, query@, *app, found));
                }
            }
        },
        KeyCode::Backspace => {
            let mut q = query;
            pop_char(&mut q);
            app.modal = ModalState::Find { query: q };
        },
        KeyCode::Char(c) => {
            if !key.control {
                let mut q = query;
                push_char(&mut q, c);
                app.modal = ModalState::Find { query: q };
            }
        },
        _ => {},
    }
}

fn go_back_and_reload(app: &mut BrowserApp)
    requires
        old(app).wf(),
    ensures
        final(app).wf(),
        back_and_reload(*old(app), *final(app)),
{
    app.go_back();
    let ghost mid = *app;
    app.needs_reload = true;
    proof {
        assert(went_back(*old(app), mid));
    }
}

fn handle_browsing_key(app: &mut BrowserApp, key: Key)
    requires
        old(app).wf(),
        old(app).modal is Hidden,
    ensures
        final(app).wf(),
        browsing_key(*old(app), key, *final(app)),
{
    match key.code {
        KeyCode::Char(c) => {
            if c == 'q' {
                app.app_state = AppState::Quitting;
            } else if c == 'k' {
                app.move_up();
            } else if c == 'j' {
                app.move_down();
            } else if c == 'u' && key.control {
                app.move_page_up();
            } else if c == 'd' && key.control {
                app.move_page_down();
            } else if c == 'o' && key.control {
                open_actions(app);
            } else if c == '/' {
                app.modal = ModalState::Find { query: String::new() };
            } else if c == 'f' && key.control {
                app.modal = ModalState::SearchInput { query: String::new() };
            } else if c == 'n' {
                let found = app.find_next();
            } else if c == 's' {
                app.cycle_sort_field();
            } else if c == 'r' {
                app.toggle_sort_direction();
            } else if c == 'x' {
                if app.selected_index < app.files.len() {
                    let file_id = app.files[app.selected_index].id;
                    let file_name = app.files[app.selected_index].name.clone();
                    app.modal = ModalState::ConfirmDelete { file_id, file_name };
                }
            }
        },
        KeyCode::Esc => {
            if app.breadcrumbs.len() > 1 {
                go_back_and_reload(app);
            } else {
                app.app_state = AppState::Quitting;
            }
        },
        KeyCode::Up => app.move_up(),
        KeyCode::Down => app.move_down(),
        KeyCode::Enter => {
            if app.selected_index < app.files.len() {
                let file_id = app.files[app.selected_index].id;
                let file_name = app.files[app.selected_index].name.clone();
                let file_type = app.files[app.selected_index].file_type.clone();
                if same_text(file_type.as_str(), "FOLDER") {
                    app.enter_folder(file_id, file_name);
                    let ghost mid = *app;
                    app.needs_reload = true;
                    proof {
                        assert(entered_folder(*old(app), file_id, file_name, mid));
                    }
                } else {
                    app.modal = ModalState::FileActions { file_id, file_name, file_type, selected: 0 };
                }
            }
        },
        KeyCode::Left => go_back_and_reload(app),
        KeyCode::Backspace => go_back_and_reload(app),
        KeyCode::Other => {},
    }
}

fn open_actions(app: &mut BrowserApp)
    requires
        old(app).wf(),
    ensures
        final(app).wf(),
        offers_actions(*old(app), *final(app)),
{
    if app.selected_index < app.files.len() {
        let file_id = app.files[app.selected_index].id;
        let file_name = app.files[app.selected_index].name.clone();
        let file_type = app.files[app.selected_index].file_type.clone();
        app.modal = ModalState::FileActions { file_id, file_name, file_type, selected: 0 };
    }
}

/// Reacts to a key press: updates the browser and says what else the file
/// action that the key ran (if any) asks for.
pub fn handle_key(app: &mut BrowserApp, key: Key, api_token: &str) -> (effect: FileEffect)
    requires
        old(app).wf(),
        key_acceptable(*old(app), key),
    ensures
        final(app).wf(),
        key_handled(*old(app), key, api_token@, *final(app), effect),
{
    if key.control && !key.other_modifiers && key.code == KeyCode::Char('c') {
        app.app_state = AppState::Quitting;
        return FileEffect::Nothing;
    }
    let modal = modal_snapshot(&app.modal);
    match modal {
        ModalState::Loading => FileEffect::Nothing,
        ModalState::Error(_) => {
            app.modal = ModalState::Hidden;
            FileEffect::Nothing
        },
        ModalState::Success(_) => {
            app.modal = ModalState::Hidden;
            FileEffect::Nothing
        },
        ModalState::ConfirmDelete { file_id, file_name } => {
            let is_yes = key.code == KeyCode::Char('y') || key.code == KeyCode::Char('Y');
            let is_no = key.code == KeyCode::Char('n') || key.code == KeyCode::Char('N') || key.code == KeyCode::Esc;
            if is_yes {
                app.save_position_for_reload();
                app.pending_action = PendingAction::Delete { file_id };
                app.spinner_label = owned("Deleting...");
                app.modal = ModalState::Loading;
            } else if is_no {
                app.modal = ModalState::Hidden;
            }
            FileEffect::Nothing
        },
        ModalState::FileActions { file_id, file_name, file_type, selected } =>
            handle_file_actions_key(app, key, api_token, file_id, file_name, file_type, selected),
        ModalState::SearchInput { query } => {
            handle_search_input_key(app, key, query);
            FileEffect::Nothing
        },
        ModalState::Find { query } => {
            handle_find_key(app, key, query);
            FileEffect::Nothing
        },
        ModalState::Hidden => {
            handle_browsing_key(app, key);
            FileEffect::Nothing
        },
    }
}

/// While browsing, Up (or k) moves the cursor one row up, staying put at the
/// top, and Down (or j) one row down, staying put on the last row; the
/// listing is left as it is and nothing else is asked for.
pub proof fn law_arrow_keys_move_the_cursor(old: BrowserApp, key: Key, api_token: Seq<char>, new: BrowserApp, effect: FileEffect)
    requires
        old.wf(),
        old.files@.len() <= usize::MAX,
        old.modal is Hidden,
        key.code == KeyCode::Up || key.code == KeyCode::Char('k') || key.code == KeyCode::Down || key.code == KeyCode::Char('j'),
        key_handled(old, key, api_token, new, effect),
    ensures
        key.code == KeyCode::Up || key.code == KeyCode::Char('k') ==>
            new.selected_index == if old.selected_index > 0 { old.selected_index - 1 } else { 0 },
        key.code == KeyCode::Down || key.code == KeyCode::Char('j') ==>
            new.selected_index == if old.selected_index + 1 < old.files@.len() { old.selected_index + 1 } else { old.selected_index as int },
        new.files == old.files,
        new.modal is Hidden,
        effect is Nothing,
{
    assert(!is_interrupt(key));
}

/// A deletion happens only when it is confirmed: in the confirmation prompt
/// only y or Y asks for the file to be deleted, and Esc, n or N close the
/// prompt, changing nothing else; any other key changes nothing.
pub proof fn law_only_yes_deletes(old: BrowserApp, key: Key, api_token: Seq<char>, new: BrowserApp, effect: FileEffect)
    requires
        old.modal is ConfirmDelete,
        !is_interrupt(key),
        key_handled(old, key, api_token, new, effect),
    ensures
        effect is Nothing,
        !(key.code == KeyCode::Char('y') || key.code == KeyCode::Char('Y')) ==>
            new.pending_action == old.pending_action && new.spinner_label == old.spinner_label
            && new.files == old.files && new.restore_index == old.restore_index,
        key.code == KeyCode::Esc || key.code == KeyCode::Char('n') || key.code == KeyCode::Char('N') ==>
            new == (BrowserApp { modal: ModalState::Hidden, ..old }),
        key.code == KeyCode::Char('y') || key.code == KeyCode::Char('Y') ==>
            new.pending_action == (PendingAction::Delete { file_id: old.modal->ConfirmDelete_file_id })
            && new.modal is Loading,
{
}

} // verus!

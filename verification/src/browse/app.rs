//! The file browser's state and the operations that move through it.
use vstd::prelude::*;
use vstd::utf8::encode_utf8;

use crate::browse::sort::{sorted_stably, stable_sort};
use crate::put::files::{File, folder_type};
use crate::text::{concat2, find_bytes, first_occurrence, lowercase, owned, same_text, to_lowercase};

verus! {

/// The field by which the listing is ordered.
#[derive(Clone, Copy, PartialEq, Eq, Structural)]
pub enum SortField {
    Name,
    Size,
    Date,
    Modified,
}

/// The direction in which the listing is ordered.
#[derive(Clone, Copy, PartialEq, Eq, Structural)]
pub enum SortDirection {
    Asc,
    Desc,
}

/// One level of the path from the root to the folder on screen, with the
/// cursor and scroll position to restore when coming back to it.
pub struct BreadcrumbEntry {
    pub id: i64,
    pub name: String,
    pub saved_index: usize,
    pub saved_offset: usize,
}

/// Whether the browser keeps running.
pub enum AppState {
    Browsing,
    Quitting,
}

/// What is shown over the listing, if anything.
pub enum ModalState {
    Hidden,
    Loading,
    ConfirmDelete {
        file_id: i64,
        file_name: String,
    },
    FileActions {
        file_id: i64,
        file_name: String,
        file_type: String,
        selected: usize,
    },
    Find {
        query: String,
    },
    SearchInput {
        query: String,
    },
    Error(String),
    Success(String),
}

/// An action offered for a file: its label and the key that runs it.
pub struct FileAction {
    pub label: &'static str,
    pub key: char,
}

/// The actions offered for a file of the given type, in order: a folder can
/// be zipped, opened, its path or id copied; any other file can have its
/// address copied (a video its stream address too), be downloaded, opened,
/// its path or id copied. Search results add a way to the containing folder.
pub open spec fn file_actions_spec(file_type: Seq<char>, in_search_results: bool) -> Seq<(Seq<char>, char)> {
    let base = if file_type == "FOLDER"@ {
        seq![
            ("Download as zip"@, 'z'),
            ("Open in browser"@, 'b'),
            ("Copy path"@, 'p'),
            ("Copy folder ID"@, 'i'),
        ]
    } else if file_type == "VIDEO"@ {
        seq![
            ("Copy URL"@, 'c'),
            ("Copy Stream URL"@, 's'),
            ("Download"@, 'd'),
            ("Open in browser"@, 'b'),
            ("Copy path"@, 'p'),
            ("Copy file ID"@, 'i'),
        ]
    } else {
        seq![
            ("Copy URL"@, 'c'),
            ("Download"@, 'd'),
            ("Open in browser"@, 'b'),
            ("Copy path"@, 'p'),
            ("Copy file ID"@, 'i'),
        ]
    };
    if in_search_results { base.push(("Go to folder"@, 'g')) } else { base }
}

/// Each action offered for a file has a key of its own, so that every one
/// of them can be run by its key.
pub proof fn law_action_keys_are_distinct(file_type: Seq<char>, in_search_results: bool)
    ensures
        forall|i: int, j: int| 0 <= i < j < file_actions_spec(file_type, in_search_results).len() ==>
            (#[trigger] file_actions_spec(file_type, in_search_results)[i]).1
                != (#[trigger] file_actions_spec(file_type, in_search_results)[j]).1,
{
    let a = file_actions_spec(file_type, in_search_results);
    assert forall|i: int, j: int| 0 <= i < j < a.len() implies (#[trigger] a[i]).1 != (#[trigger] a[j]).1 by {
        if file_type == "FOLDER"@ {
        } else if file_type == "VIDEO"@ {
        } else {
        }
    }
}

/// Actions as label and key pairs.
pub open spec fn actions_view(actions: Seq<FileAction>) -> Seq<(Seq<char>, char)> {
    actions.map_values(|a: FileAction| (a.label@, a.key))
}

fn action(label: &'static str, key: char) -> (res: FileAction)
    ensures
        res.label@ == label@,
        res.key == key,
{
    FileAction { label, key }
}

/// Returns the ordered list of actions available for a given file type.
/// Used by both the event handler and the UI renderer.
pub fn file_actions_for(file_type: &str, in_search_results: bool) -> (res: Vec<FileAction>)
    ensures
        actions_view(res@) == file_actions_spec(file_type@, in_search_results),
{
    let mut actions: Vec<FileAction> = Vec::new();
    if same_text(file_type, "FOLDER") {
        actions.push(action("Download as zip", 'z'));
        actions.push(action("Open in browser", 'b'));
        actions.push(action("Copy path", 'p'));
        actions.push(action("Copy folder ID", 'i'));
    } else if same_text(file_type, "VIDEO") {
        actions.push(action("Copy URL", 'c'));
        actions.push(action("Copy Stream URL", 's'));
        actions.push(action("Download", 'd'));
        actions.push(action("Open in browser", 'b'));
        actions.push(action("Copy path", 'p'));
        actions.push(action("Copy file ID", 'i'));
    } else {
        actions.push(action("Copy URL", 'c'));
        actions.push(action("Download", 'd'));
        actions.push(action("Open in browser", 'b'));
        actions.push(action("Copy path", 'p'));
        actions.push(action("Copy file ID", 'i'));
    }
    let ghost base = actions_view(actions@);
    if in_search_results {
        actions.push(action("Go to folder", 'g'));
        proof {
            assert(actions_view(actions@) =~= base.push(("Go to folder"@, 'g')));
        }
    }
    proof {
        let spec_base = if file_type@ == "FOLDER"@ {
            seq![
                ("Download as zip"@, 'z'),
                ("Open in browser"@, 'b'),
                ("Copy path"@, 'p'),
                ("Copy folder ID"@, 'i'),
            ]
        } else if file_type@ == "VIDEO"@ {
            seq![
                ("Copy URL"@, 'c'),
                ("Copy Stream URL"@, 's'),
                ("Download"@, 'd'),
                ("Open in browser"@, 'b'),
                ("Copy path"@, 'p'),
                ("Copy file ID"@, 'i'),
            ]
        } else {
            seq![
                ("Copy URL"@, 'c'),
                ("Download"@, 'd'),
                ("Open in browser"@, 'b'),
                ("Copy path"@, 'p'),
                ("Copy file ID"@, 'i'),
            ]
        };
        assert(base =~= spec_base);
    }
    actions
}

/// The work that the browser's loop is to carry out next.
pub enum PendingAction {
    Idle,
    Download { file_id: i64 },
    Search { query: String },
    GoToFolder { parent_id: i64, file_id: i64 },
    Delete { file_id: i64 },
    CopyPath { file_name: String, parent_id: i64 },
}

/// The list widget's state: the selected row and the first row shown.
pub struct ListState {
    pub selected: Option<usize>,
    pub offset: usize,
}

impl ListState {
    /// A list with nothing selected, shown from the top.
    pub fn new() -> (res: ListState)
        ensures
            res == (ListState { selected: None, offset: 0 }),
    {
        ListState { selected: None, offset: 0 }
    }

    /// Selects a row; selecting nothing also scrolls back to the top.
    pub fn select(&mut self, index: Option<usize>)
        ensures
            final(self).selected == index,
            final(self).offset == if index is None { 0 } else { old(self).offset },
    {
        self.selected = index;
        if index.is_none() {
            self.offset = 0;
        }
    }
}

/// The browser: where it is, what it shows and what it is doing.
pub struct BrowserApp {
    pub current_folder_id: i64,
    pub breadcrumbs: Vec<BreadcrumbEntry>,
    pub files: Vec<File>,
    pub selected_index: usize,
    pub app_state: AppState,
    pub modal: ModalState,
    pub pending_action: PendingAction,
    pub sort_field: SortField,
    pub sort_direction: SortDirection,
    pub list_state: ListState,
    pub restore_index: Option<usize>,
    pub restore_offset: Option<usize>,
    pub tick: u8,
    pub needs_reload: bool,
    pub spinner_label: String,
    pub last_search: Option<String>,
    pub is_search_results: bool,
    pub pending_select_id: Option<i64>,
}

/// The breadcrumbs with the given cursor and scroll position saved in the last one.
pub open spec fn with_saved_cursor(crumbs: Seq<BreadcrumbEntry>, index: usize, offset: usize) -> Seq<BreadcrumbEntry> {
    if crumbs.len() == 0 {
        crumbs
    } else {
        crumbs.update(crumbs.len() - 1, BreadcrumbEntry { saved_index: index, saved_offset: offset, ..crumbs.last() })
    }
}

/// The breadcrumbs with the last one renamed.
pub open spec fn with_last_name(crumbs: Seq<BreadcrumbEntry>, name: String) -> Seq<BreadcrumbEntry> {
    if crumbs.len() == 0 {
        crumbs
    } else {
        crumbs.update(crumbs.len() - 1, BreadcrumbEntry { name: name, ..crumbs.last() })
    }
}

/// A breadcrumb for a newly entered level, with the cursor at the top.
pub open spec fn fresh_crumb(id: i64, name: String) -> BreadcrumbEntry {
    BreadcrumbEntry { id: id, name: name, saved_index: 0, saved_offset: 0 }
}

/// The position of the first file with the given id, or 0 when there is none.
pub open spec fn index_of_id(files: Seq<File>, id: i64) -> int {
    if exists|k: int| 0 <= k < files.len() && files[k].id == id && forall|j: int| 0 <= j < k ==> files[j].id != id {
        choose|k: int| 0 <= k < files.len() && files[k].id == id && forall|j: int| 0 <= j < k ==> files[j].id != id
    } else {
        0
    }
}

/// The last row of a list of `len` rows (0 for an empty list).
pub open spec fn last_row(len: nat) -> int {
    if len == 0 { 0 } else { len - 1 }
}

/// Whether a file's name holds the query, without regard to case (as bytes
/// of the lower-cased texts).
#[verifier::opaque]
pub open spec fn name_matches(f: File, query: Seq<char>) -> bool {
    first_occurrence(encode_utf8(lowercase(f.name@)), encode_utf8(lowercase(query))) is Some
}

/// Whether the file `d` rows after `from` (wrapping around) matches.
pub open spec fn matches_after(files: Seq<File>, from: int, query: Seq<char>, d: int) -> bool {
    name_matches(files[(from + d) % (files.len() as int)], query)
}

/// The distance, counted forward from `from` and wrapping around, to the
/// nearest file whose name matches: in 1 to `files.len()`, or none.
pub open spec fn next_match_distance(files: Seq<File>, from: int, query: Seq<char>) -> Option<int> {
    let n = files.len() as int;
    if exists|d: int| 1 <= d <= n && #[trigger] matches_after(files, from, query, d)
        && forall|e: int| 1 <= e < d ==> !#[trigger] matches_after(files, from, query, e) {
        Some(choose|d: int| 1 <= d <= n && #[trigger] matches_after(files, from, query, d)
            && forall|e: int| 1 <= e < d ==> !#[trigger] matches_after(files, from, query, e))
    } else {
        None
    }
}

/// `new` is `old` after opening the folder `id` named `name`: the cursor and
/// scroll position are saved in the last breadcrumb, a breadcrumb for the
/// folder follows it, the listing is emptied and the cursor put at the top
/// while the folder loads. A folder is no search result: opened from search
/// results, it leaves them, so that a later search adds its own breadcrumb.
pub open spec fn entered_folder(old: BrowserApp, id: i64, name: String, new: BrowserApp) -> bool {
    &&& new == (BrowserApp {
        breadcrumbs: new.breadcrumbs,
        files: new.files,
        is_search_results: false,
        current_folder_id: id,
        selected_index: 0,
        list_state: ListState { selected: Some(0), ..old.list_state },
        modal: ModalState::Loading,
        ..old
    })
    &&& new.breadcrumbs@ == with_saved_cursor(old.breadcrumbs@, old.selected_index, old.list_state.offset).push(fresh_crumb(id, name))
    &&& new.files@.len() == 0
}

/// `new` is `old` after going up a level: at the root nothing changes;
/// otherwise the last breadcrumb goes, search results are left, the parent
/// becomes the current folder and its saved cursor and scroll position are
/// kept for when its listing arrives.
pub open spec fn went_back(old: BrowserApp, new: BrowserApp) -> bool {
    if old.breadcrumbs@.len() <= 1 {
        new == old
    } else {
        let parent = old.breadcrumbs@[old.breadcrumbs@.len() - 2];
        &&& new == (BrowserApp {
            breadcrumbs: new.breadcrumbs,
            files: new.files,
            is_search_results: false,
            current_folder_id: parent.id,
            restore_index: Some(parent.saved_index),
            restore_offset: Some(parent.saved_offset),
            selected_index: 0,
            list_state: ListState { selected: Some(0), ..old.list_state },
            modal: ModalState::Loading,
            ..old
        })
        &&& new.breadcrumbs@ == old.breadcrumbs@.drop_last()
        &&& new.files@.len() == 0
    }
}

/// `new` is `old` once the listing `files` has arrived: the files are
/// ordered; the cursor goes to the file that was asked for (or the top),
/// else back to the saved row, kept within the listing, with the saved
/// scroll position likewise; the overlay closes.
pub open spec fn files_shown(old: BrowserApp, files: Seq<File>, new: BrowserApp) -> bool {
    &&& sorted_stably(files, new.files@, old.sort_field, old.sort_direction)
    &&& new.list_state.selected == Some(new.selected_index)
    &&& match old.pending_select_id {
        Some(select_id) => {
            &&& new.selected_index == index_of_id(new.files@, select_id)
            &&& new.restore_index == old.restore_index
            &&& new.restore_offset is None
            &&& new.list_state.offset == old.list_state.offset
        },
        None => {
            &&& new.selected_index == vstd::math::min(
                match old.restore_index { Some(i) => i as int, None => 0 },
                last_row(files.len()))
            &&& new.restore_index is None
            &&& new.restore_offset is None
            &&& new.list_state.offset == match old.restore_offset {
                Some(o) => vstd::math::min(o as int, last_row(files.len())) as usize,
                None => old.list_state.offset,
            }
        },
    }
    &&& new == (BrowserApp {
        files: new.files,
        selected_index: new.selected_index,
        list_state: new.list_state,
        restore_index: new.restore_index,
        restore_offset: new.restore_offset,
        pending_select_id: None,
        modal: ModalState::Hidden,
        ..old
    })
}

/// `new` is `old` showing the results of searching for `query`: a first
/// search saves the cursor and adds a breadcrumb (id -1) named after the
/// query, a further one renames that breadcrumb; the results are shown as
/// given, from the top, and the overlay closes.
pub open spec fn search_results_shown(old: BrowserApp, query: Seq<char>, files: Seq<File>, new: BrowserApp) -> bool {
    let label = new.breadcrumbs@.last().name;
    &&& label@ == "Search: "@ + query
    &&& old.is_search_results ==> new.breadcrumbs@ == with_last_name(old.breadcrumbs@, label)
    &&& !old.is_search_results ==> new.breadcrumbs@ == with_saved_cursor(old.breadcrumbs@, old.selected_index, old.list_state.offset).push(fresh_crumb(-1i64, label))
    &&& new.files@ == files
    &&& new == (BrowserApp {
        breadcrumbs: new.breadcrumbs,
        files: new.files,
        is_search_results: true,
        selected_index: 0,
        list_state: ListState { selected: Some(0), offset: 0 },
        modal: ModalState::Hidden,
        ..old
    })
}

/// `new` is `old` with the cursor on row `i`.
pub open spec fn at_row(old: BrowserApp, i: usize) -> BrowserApp {
    BrowserApp {
        selected_index: i,
        list_state: ListState { selected: Some(i), ..old.list_state },
        ..old
    }
}

/// The cursor goes up a row unless at the top.
pub open spec fn moved_up(old: BrowserApp, new: BrowserApp) -> bool {
    if old.selected_index > 0 { new == at_row(old, (old.selected_index - 1) as usize) } else { new == old }
}

/// The cursor goes down a row unless on the last.
pub open spec fn moved_down(old: BrowserApp, new: BrowserApp) -> bool {
    if old.selected_index + 1 < old.files@.len() { new == at_row(old, (old.selected_index + 1) as usize) } else { new == old }
}

/// The cursor goes up ten rows, stopping at the top.
pub open spec fn moved_page_up(old: BrowserApp, new: BrowserApp) -> bool {
    new == at_row(old, if old.selected_index >= 10 { (old.selected_index - 10) as usize } else { 0usize })
}

/// The cursor goes down ten rows, stopping at the last; nothing happens in
/// an empty listing.
pub open spec fn moved_page_down(old: BrowserApp, new: BrowserApp) -> bool {
    if old.files@.len() == 0 {
        new == old
    } else {
        new == at_row(old, vstd::math::min(old.selected_index + 10, old.files@.len() - 1) as usize)
    }
}

/// The listing is ordered by the next field, with the cursor at the top.
pub open spec fn sort_field_cycled(old: BrowserApp, new: BrowserApp) -> bool {
    &&& sorted_stably(old.files@, new.files@, next_sort_field(old.sort_field), old.sort_direction)
    &&& new == (BrowserApp { files: new.files, sort_field: next_sort_field(old.sort_field), ..at_row(old, 0) })
}

/// The listing is ordered the other way round, with the cursor at the top.
pub open spec fn sort_direction_toggled(old: BrowserApp, new: BrowserApp) -> bool {
    &&& sorted_stably(old.files@, new.files@, old.sort_field, flipped(old.sort_direction))
    &&& new == (BrowserApp { files: new.files, sort_direction: flipped(old.sort_direction), ..at_row(old, 0) })
}

/// The last search is repeated, if there was one.
pub open spec fn found_next(old: BrowserApp, new: BrowserApp, found: bool) -> bool {
    match old.last_search {
        Some(q) => find_result(old, q@, new, found),
        None => !found && new == old,
    }
}

/// `new` is `old` on its way to the folder `parent_id` with the file
/// `file_id` to be selected: back at the root (whose saved cursor is
/// cleared), then one level down unless the folder is the root itself
/// (named "..." until its listing arrives); the listing is emptied and
/// loads.
pub open spec fn navigated_to(old: BrowserApp, parent_id: i64, file_id: i64, new: BrowserApp) -> bool {
    let root = BreadcrumbEntry { saved_index: 0, saved_offset: 0, ..old.breadcrumbs@[0] };
    &&& if parent_id != 0 {
        &&& new.breadcrumbs@.len() == 2
        &&& new.breadcrumbs@[0] == root
        &&& new.breadcrumbs@[1].id == parent_id
        &&& new.breadcrumbs@[1].name@ == "..."@
        &&& new.breadcrumbs@[1].saved_index == 0
        &&& new.breadcrumbs@[1].saved_offset == 0
    } else {
        new.breadcrumbs@ == seq![root]
    }
    &&& new.files@.len() == 0
    &&& new == (BrowserApp {
        breadcrumbs: new.breadcrumbs,
        files: new.files,
        is_search_results: false,
        current_folder_id: parent_id,
        pending_select_id: Some(file_id),
        selected_index: 0,
        list_state: ListState { selected: Some(0), ..old.list_state },
        modal: ModalState::Loading,
        ..old
    })
}

/// What looking for `query` from the cursor does: with an empty query or an
/// empty listing nothing happens; otherwise the cursor moves to the nearest
/// matching file after it, wrapping around, and nothing happens when no
/// file matches.
pub open spec fn find_result(old: BrowserApp, query: Seq<char>, new: BrowserApp, found: bool) -> bool {
    if query.len() == 0 || old.files@.len() == 0 {
        !found && new == old
    } else {
        match next_match_distance(old.files@, old.selected_index as int, query) {
            Some(d) => {
                let i = ((old.selected_index + d) % (old.files@.len() as int)) as usize;
                &&& found
                &&& new == (BrowserApp {
                    selected_index: i,
                    list_state: ListState { selected: Some(i), ..old.list_state },
                    ..old
                })
            },
            None => !found && new == old,
        }
    }
}

/// The field that comes after `f` when cycling.
pub open spec fn next_sort_field(f: SortField) -> SortField {
    match f {
        SortField::Name => SortField::Size,
        SortField::Size => SortField::Date,
        SortField::Date => SortField::Modified,
        SortField::Modified => SortField::Name,
    }
}

/// The other direction.
pub open spec fn flipped(d: SortDirection) -> SortDirection {
    match d {
        SortDirection::Asc => SortDirection::Desc,
        SortDirection::Desc => SortDirection::Asc,
    }
}

/// The row `d` rows after `sel`, wrapping around a list of `n` rows.
fn wrap_index(sel: usize, d: usize, n: usize) -> (i: usize)
    requires
        sel < n,
        1 <= d <= n,
    ensures
        i as int == (sel + d) % (n as int),
        i < n,
{
    let i = if d < n - sel { sel + d } else { d - (n - sel) };
    proof {
        assert(i as int == (sel + d) % (n as int)) by (nonlinear_arith)
            requires
                sel < n,
                1 <= d <= n,
                i as int == if d < n - sel { sel + d } else { d - (n - sel) },
        ;
    }
    i
}

/// Whether the file's name holds the query whose lower-cased text is `q`.
fn file_matches(f: &File, q: &str, Ghost(query): Ghost<Seq<char>>) -> (res: bool)
    requires
        q@ == lowercase(query),
    ensures
        res == name_matches(*f, query),
{
    let lower_name = to_lowercase(f.name.as_str());
    let hit = find_bytes(lower_name.as_str().as_bytes(), q.as_bytes());
    proof {
        reveal(name_matches);
    }
    hit.is_some()
}

/// The row of the nearest file after `sel`, wrapping around, whose name
/// holds the query whose lower-cased text is `q`.
fn nearest_match(files: &Vec<File>, sel: usize, q: &str, Ghost(query): Ghost<Seq<char>>) -> (res: Option<usize>)
    requires
        sel < files@.len(),
        q@ == lowercase(query),
    ensures
        match next_match_distance(files@, sel as int, query) {
            Some(d) => res == Some(((sel + d) % (files@.len() as int)) as usize),
            None => res is None,
        },
        res matches Some(i) ==> i < files@.len(),
{
    let n = files.len();
    let mut k: usize = 0;
    while k < n
        invariant
            n == files@.len(),
            sel < n,
            k <= n,
            q@ == lowercase(query),
            forall|e: int| 1 <= e <= k ==> !#[trigger] matches_after(files@, sel as int, query, e),
        decreases n - k,
    {
        let d = k + 1;
        let i = wrap_index(sel, d, n);
        if file_matches(&files[i], q, Ghost(query)) {
            proof {
                assert(matches_after(files@, sel as int, query, d as int));
                let c = choose|c: int| 1 <= c <= n && #[trigger] matches_after(files@, sel as int, query, c)
                    && forall|e: int| 1 <= e < c ==> !#[trigger] matches_after(files@, sel as int, query, e);
                assert(1 <= c <= n && matches_after(files@, sel as int, query, c)
                    && forall|e: int| 1 <= e < c ==> !#[trigger] matches_after(files@, sel as int, query, e));
                if c < d {
                } else if c > d {
                }
            }
            return Some(i);
        }
        k = k + 1;
    }
    None
}

impl BrowserApp {
    /// The state that every operation keeps: there is always a breadcrumb
    /// (the root), and the cursor is on a file or at the top.
    pub open spec fn wf(&self) -> bool {
        &&& self.breadcrumbs@.len() >= 1
        &&& (self.selected_index == 0 || self.selected_index < self.files@.len())
    }

    /// A browser at the root, about to load it.
    pub fn new() -> (res: BrowserApp)
        ensures
            res.wf(),
            res.current_folder_id == 0,
            res.breadcrumbs@.len() == 1,
            res.breadcrumbs@[0].id == 0,
            res.breadcrumbs@[0].name@ == "My Files"@,
            res.breadcrumbs@[0].saved_index == 0,
            res.breadcrumbs@[0].saved_offset == 0,
            res.files@.len() == 0,
            res.selected_index == 0,
            res.app_state is Browsing,
            res.modal is Loading,
            res.pending_action is Idle,
            res.sort_field == SortField::Name,
            res.sort_direction == SortDirection::Asc,
            res.list_state == (ListState { selected: Some(0), offset: 0 }),
            res.restore_index is None,
            res.restore_offset is None,
            res.tick == 0,
            res.needs_reload,
            res.spinner_label@ == "Loading..."@,
            res.last_search is None,
            !res.is_search_results,
            res.pending_select_id is None,
    {
        let mut list_state = ListState::new();
        list_state.select(Some(0));
        let mut breadcrumbs: Vec<BreadcrumbEntry> = Vec::new();
        breadcrumbs.push(BreadcrumbEntry { id: 0, name: owned("My Files"), saved_index: 0, saved_offset: 0 });
        BrowserApp {
            current_folder_id: 0,
            breadcrumbs,
            files: Vec::new(),
            selected_index: 0,
            app_state: AppState::Browsing,
            modal: ModalState::Loading,
            pending_action: PendingAction::Idle,
            sort_field: SortField::Name,
            sort_direction: SortDirection::Asc,
            list_state,
            restore_index: None,
            restore_offset: None,
            tick: 0,
            needs_reload: true,
            spinner_label: owned("Loading..."),
            last_search: None,
            is_search_results: false,
            pending_select_id: None,
        }
    }

    /// Saves the cursor and scroll position in the last breadcrumb.
    fn save_cursor_in_last_crumb(&mut self)
        ensures
            *final(self) == (BrowserApp { breadcrumbs: final(self).breadcrumbs, ..*old(self) }),
            final(self).breadcrumbs@ == with_saved_cursor(old(self).breadcrumbs@, old(self).selected_index, old(self).list_state.offset),
    {
        let n = self.breadcrumbs.len();
        if n > 0 {
            let last = &self.breadcrumbs[n - 1];
            let entry = BreadcrumbEntry {
                id: last.id,
                name: last.name.clone(),
                saved_index: self.selected_index,
                saved_offset: self.list_state.offset,
            };
            self.breadcrumbs.set(n - 1, entry);
        }
    }

    /// Opens a folder: remembers where the cursor was, adds a breadcrumb for
    /// the folder and waits for its listing.
    pub fn enter_folder(&mut self, id: i64, name: String)
        requires
            old(self).wf(),
        ensures
            final(self).wf(),
            entered_folder(*old(self), id, name, *final(self)),
    {
        self.save_cursor_in_last_crumb();
        self.breadcrumbs.push(BreadcrumbEntry { id, name, saved_index: 0, saved_offset: 0 });
        self.current_folder_id = id;
        self.is_search_results = false;
        self.files.clear();
        self.selected_index = 0;
        self.list_state.select(Some(0));
        self.modal = ModalState::Loading;
    }

    /// Goes up one level, if not at the root: drops the last breadcrumb,
    /// leaves search results, and arranges for the parent's cursor and
    /// scroll position to come back once its listing arrives.
    pub fn go_back(&mut self)
        requires
            old(self).wf(),
        ensures
            final(self).wf(),
            went_back(*old(self), *final(self)),
    {
        if self.breadcrumbs.len() > 1 {
            self.breadcrumbs.pop();
            self.is_search_results = false;
            let n = self.breadcrumbs.len();
            let parent = &self.breadcrumbs[n - 1];
            let parent_id = parent.id;
            let saved_index = parent.saved_index;
            let saved_offset = parent.saved_offset;
            self.current_folder_id = parent_id;
            self.restore_index = Some(saved_index);
            self.restore_offset = Some(saved_offset);
            self.files.clear();
            self.selected_index = 0;
            self.list_state.select(Some(0));
            self.modal = ModalState::Loading;
        }
    }

    /// Orders the files by the current field and direction.
    fn sort_files(&mut self)
        ensures
            *final(self) == (BrowserApp { files: final(self).files, ..*old(self) }),
            sorted_stably(old(self).files@, final(self).files@, old(self).sort_field, old(self).sort_direction),
    {
        let mut files: Vec<File> = Vec::new();
        core::mem::swap(&mut files, &mut self.files);
        self.files = stable_sort(files, self.sort_field, self.sort_direction);
    }

    /// Shows a folder's listing: orders it, then puts the cursor on the file
    /// that was asked for, or back where it was before the reload.
    pub fn set_files(&mut self, files: Vec<File>)
        requires
            old(self).wf(),
        ensures
            final(self).wf(),
            files_shown(*old(self), files@, *final(self)),
    {
        self.files = files;
        let ghost unsorted = self.files@;
        self.sort_files();
        proof {
            crate::browse::sort::lemma_sorted_same_length(unsorted, self.files@, self.sort_field, self.sort_direction);
        }
        let len = self.files.len();
        let last = if len == 0 { 0 } else { len - 1 };
        let idx: usize;
        let apply_scroll: bool;
        match self.pending_select_id.take() {
            Some(select_id) => {
                idx = self.position_of_id(select_id);
                apply_scroll = false;
            },
            None => {
                let wanted = self.restore_index.take().unwrap_or(0);
                idx = if wanted < last { wanted } else { last };
                apply_scroll = true;
            },
        }
        self.selected_index = idx;
        self.list_state.select(Some(idx));
        if apply_scroll {
            match self.restore_offset.take() {
                Some(offset) => {
                    self.list_state.offset = if offset < last { offset } else { last };
                },
                None => {},
            }
        } else {
            self.restore_offset = None;
        }
        self.modal = ModalState::Hidden;
    }

    /// The position of the first file with the given id, or 0.
    fn position_of_id(&self, id: i64) -> (res: usize)
        ensures
            res == index_of_id(self.files@, id),
            res == 0 || res < self.files@.len(),
    {
        let mut k: usize = 0;
        while k < self.files.len()
            invariant
                k <= self.files@.len(),
                forall|j: int| 0 <= j < k ==> self.files@[j].id != id,
            decreases self.files@.len() - k,
        {
            if self.files[k].id == id {
                proof {
                    let c = choose|c: int| 0 <= c < self.files@.len() && self.files@[c].id == id && forall|j: int| 0 <= j < c ==> self.files@[j].id != id;
                    assert(0 <= c < self.files@.len() && self.files@[c].id == id && forall|j: int| 0 <= j < c ==> self.files@[j].id != id);
                    if c < k {
                    } else if c > k {
                        assert(self.files@[k as int].id == id);
                    }
                }
                return k;
            }
            k = k + 1;
        }
        0
    }

    /// Display search results. Pushes a virtual breadcrumb (id = -1).
    /// If already showing search results, replaces them in-place.
    pub fn enter_search_results(&mut self, query: &str, files: Vec<File>)
        requires
            old(self).wf(),
        ensures
            final(self).wf(),
            search_results_shown(*old(self), query@, files@, *final(self)),
    {
        let label = concat2("Search: ", query);
        if self.is_search_results {
            let n = self.breadcrumbs.len();
            let last = &self.breadcrumbs[n - 1];
            let entry = BreadcrumbEntry {
                id: last.id,
                name: label,
                saved_index: last.saved_index,
                saved_offset: last.saved_offset,
            };
            self.breadcrumbs.set(n - 1, entry);
        } else {
            self.save_cursor_in_last_crumb();
            self.breadcrumbs.push(BreadcrumbEntry { id: -1, name: label, saved_index: 0, saved_offset: 0 });
            self.is_search_results = true;
        }
        self.files = files;
        self.selected_index = 0;
        self.list_state.select(Some(0));
        self.list_state.offset = 0;
        self.modal = ModalState::Hidden;
    }

    /// Reset navigation back to root, clearing any search context.
    pub fn reset_to_root(&mut self)
        requires
            old(self).breadcrumbs@.len() >= 1,
        ensures
            final(self).breadcrumbs@ == seq![BreadcrumbEntry { saved_index: 0, saved_offset: 0, ..old(self).breadcrumbs@[0] }],
            *final(self) == (BrowserApp {
                breadcrumbs: final(self).breadcrumbs,
                is_search_results: false,
                current_folder_id: 0,
                ..*old(self)
            }),
    {
        self.breadcrumbs.truncate(1);
        let root = &self.breadcrumbs[0];
        let entry = BreadcrumbEntry { id: root.id, name: root.name.clone(), saved_index: 0, saved_offset: 0 };
        self.breadcrumbs.set(0, entry);
        self.is_search_results = false;
        self.current_folder_id = 0;
    }

    /// Navigate directly to a folder and pre-select a file by id.
    pub fn navigate_to_folder(&mut self, parent_id: i64, file_id: i64)
        requires
            old(self).wf(),
        ensures
            final(self).wf(),
            navigated_to(*old(self), parent_id, file_id, *final(self)),
    {
        self.reset_to_root();
        if parent_id != 0 {
            self.breadcrumbs.push(BreadcrumbEntry { id: parent_id, name: owned("..."), saved_index: 0, saved_offset: 0 });
            self.current_folder_id = parent_id;
        }
        self.pending_select_id = Some(file_id);
        self.files.clear();
        self.selected_index = 0;
        self.list_state.select(Some(0));
        self.modal = ModalState::Loading;
    }

    /// Orders by the next field (name, size, date, modified, then name
    /// again) and puts the cursor at the top.
    pub fn cycle_sort_field(&mut self)
        requires
            old(self).wf(),
        ensures
            final(self).wf(),
            sort_field_cycled(*old(self), *final(self)),
    {
        self.sort_field = match self.sort_field {
            SortField::Name => SortField::Size,
            SortField::Size => SortField::Date,
            SortField::Date => SortField::Modified,
            SortField::Modified => SortField::Name,
        };
        self.sort_files();
        self.selected_index = 0;
        self.list_state.select(Some(0));
    }

    /// Orders the other way round and puts the cursor at the top.
    pub fn toggle_sort_direction(&mut self)
        requires
            old(self).wf(),
        ensures
            final(self).wf(),
            sort_direction_toggled(*old(self), *final(self)),
    {
        self.sort_direction = match self.sort_direction {
            SortDirection::Asc => SortDirection::Desc,
            SortDirection::Desc => SortDirection::Asc,
        };
        self.sort_files();
        self.selected_index = 0;
        self.list_state.select(Some(0));
    }

    /// The file under the cursor, if any.
    pub fn selected_file(&self) -> (res: Option<&File>)
        ensures
            self.selected_index < self.files@.len() ==> res == Some(&self.files@[self.selected_index as int]),
            self.selected_index >= self.files@.len() ==> res is None,
    {
        if self.selected_index < self.files.len() {
            Some(&self.files[self.selected_index])
        } else {
            None
        }
    }

    /// Preserve the current cursor and scroll position across the next reload.
    pub fn save_position_for_reload(&mut self)
        ensures
            *final(self) == (BrowserApp {
                restore_index: Some(old(self).selected_index),
                restore_offset: Some(old(self).list_state.offset),
                ..*old(self)
            }),
    {
        self.restore_index = Some(self.selected_index);
        self.restore_offset = Some(self.list_state.offset);
    }

    /// Moves the cursor up one row, unless at the top.
    pub fn move_up(&mut self)
        requires
            old(self).wf(),
        ensures
            final(self).wf(),
            moved_up(*old(self), *final(self)),
    {
        if self.selected_index > 0 {
            self.selected_index -= 1;
            self.list_state.select(Some(self.selected_index));
        }
    }

    /// Moves the cursor down one row, unless on the last.
    pub fn move_down(&mut self)
        requires
            old(self).wf(),
        ensures
            final(self).wf(),
            moved_down(*old(self), *final(self)),
    {
        if self.files.len() > 0 && self.selected_index < self.files.len() - 1 {
            self.selected_index += 1;
            self.list_state.select(Some(self.selected_index));
        }
    }

    /// Jump to the next file matching `query`, starting after the current selection.
    /// Wraps around. Returns true if a match was found.
    pub fn find_next_with(&mut self, query: &str) -> (found: bool)
        requires
            old(self).wf(),
        ensures
            final(self).wf(),
            find_result(*old(self), query@, *final(self), found),
    {
        let n = self.files.len();
        if query.is_empty() || n == 0 {
            return false;
        }
        let q = to_lowercase(query);
        match nearest_match(&self.files, self.selected_index, q.as_str(), Ghost(query@)) {
            Some(i) => {
                self.selected_index = i;
                self.list_state.select(Some(i));
                true
            },
            None => false,
        }
    }

    /// Repeat the last search.
    pub fn find_next(&mut self) -> (found: bool)
        requires
            old(self).wf(),
        ensures
            final(self).wf(),
            found_next(*old(self), *final(self), found),
    {
        match &self.last_search {
            Some(q) => {
                let query = q.clone();
                self.find_next_with(query.as_str())
            },
            None => false,
        }
    }

    /// Moves the cursor up ten rows, stopping at the top.
    pub fn move_page_up(&mut self)
        requires
            old(self).wf(),
        ensures
            final(self).wf(),
            moved_page_up(*old(self), *final(self)),
    {
        self.selected_index = if self.selected_index >= 10 { self.selected_index - 10 } else { 0 };
        self.list_state.select(Some(self.selected_index));
    }

    /// Moves the cursor down ten rows, stopping at the last.
    pub fn move_page_down(&mut self)
        requires
            old(self).wf(),
        ensures
            final(self).wf(),
            moved_page_down(*old(self), *final(self)),
    {
        if self.files.len() > 0 {
            let last = self.files.len() - 1;
            self.selected_index = if self.selected_index <= last && last - self.selected_index >= 10 {
                self.selected_index + 10
            } else {
                last
            };
            self.list_state.select(Some(self.selected_index));
        }
    }
}

/// Opening a folder and going back returns to where one was: the same
/// breadcrumbs (the last holding the cursor and scroll position at the time),
/// the same folder, and that cursor and scroll position ready to come back.
pub proof fn law_back_returns_to_parent(s0: BrowserApp, id: i64, name: String, s1: BrowserApp, s2: BrowserApp)
    requires
        s0.wf(),
        entered_folder(s0, id, name, s1),
        went_back(s1, s2),
    ensures
        s2.breadcrumbs@ == with_saved_cursor(s0.breadcrumbs@, s0.selected_index, s0.list_state.offset),
        s2.current_folder_id == s0.breadcrumbs@.last().id,
        s2.restore_index == Some(s0.selected_index),
        s2.restore_offset == Some(s0.list_state.offset),
        !s2.is_search_results,
        s2.modal is Loading,
{
    let saved = with_saved_cursor(s0.breadcrumbs@, s0.selected_index, s0.list_state.offset);
    assert(s1.breadcrumbs@.drop_last() =~= saved);
    assert(s1.breadcrumbs@[s1.breadcrumbs@.len() - 2] == saved.last());
}

/// Opening a folder, going back and receiving the parent's listing puts the
/// cursor back on the row it was on, or on the last row when the listing
/// has become shorter, and scrolls as before within the same bounds.
pub proof fn law_cursor_survives_a_visit(s0: BrowserApp, id: i64, name: String, s1: BrowserApp, s2: BrowserApp, files: Seq<File>, s3: BrowserApp)
    requires
        s0.wf(),
        s0.pending_select_id is None,
        entered_folder(s0, id, name, s1),
        went_back(s1, s2),
        files_shown(s2, files, s3),
    ensures
        s3.selected_index == vstd::math::min(s0.selected_index as int, last_row(files.len())),
        s3.list_state.offset == vstd::math::min(s0.list_state.offset as int, last_row(files.len())),
        s3.list_state.selected == Some(s3.selected_index),
        s3.current_folder_id == s0.breadcrumbs@.last().id,
{
    law_back_returns_to_parent(s0, id, name, s1, s2);
}

/// Searching and going back returns to the folder one searched from, with
/// its cursor and scroll position ready to come back.
pub proof fn law_back_leaves_search_results(s0: BrowserApp, query: Seq<char>, files: Seq<File>, s1: BrowserApp, s2: BrowserApp)
    requires
        s0.wf(),
        !s0.is_search_results,
        search_results_shown(s0, query, files, s1),
        went_back(s1, s2),
    ensures
        s2.breadcrumbs@ == with_saved_cursor(s0.breadcrumbs@, s0.selected_index, s0.list_state.offset),
        s2.current_folder_id == s0.breadcrumbs@.last().id,
        s2.restore_index == Some(s0.selected_index),
        s2.restore_offset == Some(s0.list_state.offset),
        !s2.is_search_results,
{
    let saved = with_saved_cursor(s0.breadcrumbs@, s0.selected_index, s0.list_state.offset);
    assert(s1.breadcrumbs@.drop_last() =~= saved);
    assert(s1.breadcrumbs@[s1.breadcrumbs@.len() - 2] == saved.last());
}

/// A second search replaces the first one's results without adding a
/// breadcrumb, so one step back still leaves the results.
pub proof fn law_searches_do_not_stack(s0: BrowserApp, q1: Seq<char>, f1: Seq<File>, s1: BrowserApp, q2: Seq<char>, f2: Seq<File>, s2: BrowserApp)
    requires
        s0.wf(),
        search_results_shown(s0, q1, f1, s1),
        search_results_shown(s1, q2, f2, s2),
    ensures
        s2.breadcrumbs@.len() == s1.breadcrumbs@.len(),
        s2.breadcrumbs@.drop_last() == s1.breadcrumbs@.drop_last(),
        s2.files@ == f2,
{
    assert(s2.breadcrumbs@.drop_last() =~= s1.breadcrumbs@.drop_last());
}

/// A search made from a folder opened among search results adds a
/// breadcrumb of its own: the folder's breadcrumb keeps its name, and the
/// new last one (id -1) is named after the query.
pub proof fn law_search_from_a_folder_adds_a_crumb(s0: BrowserApp, id: i64, name: String, s1: BrowserApp, query: Seq<char>, files: Seq<File>, s2: BrowserApp)
    requires
        s0.wf(),
        entered_folder(s0, id, name, s1),
        search_results_shown(s1, query, files, s2),
    ensures
        s2.breadcrumbs@.len() == s1.breadcrumbs@.len() + 1,
        s2.breadcrumbs@[s2.breadcrumbs@.len() - 2].id == id,
        s2.breadcrumbs@[s2.breadcrumbs@.len() - 2].name == name,
        s2.breadcrumbs@.last().id == -1,
        s2.breadcrumbs@.last().name@ == "Search: "@ + query,
        s2.is_search_results,
{
    assert(s1.breadcrumbs@.last() == fresh_crumb(id, name));
    assert(s2.breadcrumbs@[s2.breadcrumbs@.len() - 2]
        == with_saved_cursor(s1.breadcrumbs@, s1.selected_index, s1.list_state.offset).last());
}

/// Cycling the sort field four times comes back to the same field, and
/// flipping the direction twice to the same direction.
pub proof fn law_sort_settings_cycle(f: SortField, d: SortDirection)
    ensures
        next_sort_field(next_sort_field(next_sort_field(next_sort_field(f)))) == f,
        flipped(flipped(d)) == d,
{
}

/// When a search finds something, the cursor is on a file whose name holds
/// the query, and no file between the old and the new position matches.
pub proof fn law_find_lands_on_a_match(old: BrowserApp, query: Seq<char>, new: BrowserApp)
    requires
        old.wf(),
        old.files@.len() <= usize::MAX,
        find_result(old, query, new, true),
    ensures
        new.selected_index < old.files@.len(),
        name_matches(old.files@[new.selected_index as int], query),
        new.list_state.selected == Some(new.selected_index),
{
    let n = old.files@.len() as int;
    assert(query.len() > 0 && n > 0);
    assert(next_match_distance(old.files@, old.selected_index as int, query) is Some);
    let d = next_match_distance(old.files@, old.selected_index as int, query)->0;
    assert(matches_after(old.files@, old.selected_index as int, query, d));
    let i = (old.selected_index + d) % n;
    assert(0 <= i < n) by (nonlinear_arith)
        requires
            n > 0,
            i == (old.selected_index + d) % n,
    ;
    assert(new.selected_index == (i as usize));
}

proof fn lemma_first_with_id(files: Seq<File>, id: i64, k: int)
    requires
        0 <= k < files.len(),
        files[k].id == id,
    ensures
        exists|m: int| 0 <= m < files.len() && files[m].id == id && forall|j: int| 0 <= j < m ==> files[j].id != id,
    decreases k,
{
    if exists|j: int| 0 <= j < k && files[j].id == id {
        let j = choose|j: int| 0 <= j < k && files[j].id == id;
        lemma_first_with_id(files, id, j);
    } else {
        assert(forall|j: int| 0 <= j < k ==> files[j].id != id);
    }
}

/// Going to a file in its folder selects it once the folder's listing
/// arrives, when the listing holds it: the cursor lands on the first file
/// with that id.
pub proof fn law_navigation_selects_the_file(s0: BrowserApp, parent_id: i64, file_id: i64, s1: BrowserApp, files: Seq<File>, s2: BrowserApp, i: int)
    requires
        s0.wf(),
        navigated_to(s0, parent_id, file_id, s1),
        files_shown(s1, files, s2),
        0 <= i < files.len(),
        files[i].id == file_id,
    ensures
        s2.selected_index < s2.files@.len(),
        s2.files@[s2.selected_index as int].id == file_id,
        forall|j: int| 0 <= j < s2.selected_index ==> s2.files@[j].id != file_id,
        s2.current_folder_id == parent_id,
{
    crate::browse::sort::law_sorting_keeps_the_files(files, s2.files@, s1.sort_field, s1.sort_direction);
    assert(s2.files@.contains(files[i]));
    let k = choose|k: int| 0 <= k < s2.files@.len() && s2.files@[k] == files[i];
    lemma_first_with_id(s2.files@, file_id, k);
}

/// Moving down and then up comes back to the same row, when there is a row
/// below.
pub proof fn law_down_then_up_returns(s0: BrowserApp, s1: BrowserApp, s2: BrowserApp)
    requires
        s0.wf(),
        s0.files@.len() <= usize::MAX,
        s0.selected_index + 1 < s0.files@.len(),
        moved_down(s0, s1),
        moved_up(s1, s2),
    ensures
        s2 == at_row(s0, s0.selected_index),
{
    assert(s1 == at_row(s0, (s0.selected_index + 1) as usize));
    assert(s1.selected_index > 0);
    assert(s2 == at_row(s1, (s1.selected_index - 1) as usize));
    assert(s2.list_state =~= at_row(s0, s0.selected_index).list_state);
    assert(s2 =~= at_row(s0, s0.selected_index));
}

/// Repeating the last search moves on from where the cursor is: the cursor
/// lands on a matching file that is the nearest one strictly after the
/// cursor's row, counting forward and wrapping around, so no file between
/// the two rows matches. The listing is left as it is.
pub proof fn law_find_next_moves_on_from_the_cursor(old: BrowserApp, q: String, new: BrowserApp)
    requires
        old.wf(),
        old.files@.len() <= usize::MAX,
        old.last_search == Some(q),
        found_next(old, new, true),
    ensures
        new.files == old.files,
        new.selected_index < old.files@.len(),
        name_matches(old.files@[new.selected_index as int], q@),
        ({
            let n = old.files@.len() as int;
            let d = if new.selected_index > old.selected_index {
                new.selected_index - old.selected_index
            } else {
                new.selected_index + n - old.selected_index
            };
            &&& 1 <= d <= n
            &&& forall|e: int| 1 <= e < d ==> !name_matches(#[trigger] old.files@[(old.selected_index + e) % n], q@)
        }),
{
    let n = old.files@.len() as int;
    let query = q@;
    assert(query.len() > 0 && n > 0);
    assert(next_match_distance(old.files@, old.selected_index as int, query) is Some);
    let d = next_match_distance(old.files@, old.selected_index as int, query)->0;
    assert(1 <= d <= n && matches_after(old.files@, old.selected_index as int, query, d)
        && forall|e: int| 1 <= e < d ==> !#[trigger] matches_after(old.files@, old.selected_index as int, query, e));
    let s = old.selected_index as int;
    assert(s < n);
    let i = (s + d) % n;
    assert(i == if s + d < n { s + d } else { s + d - n }) by (nonlinear_arith)
        requires
            0 <= s < n,
            1 <= d <= n,
            i == (s + d) % n,
    ;
    assert(new.selected_index == i);
    assert forall|e: int| 1 <= e < d implies !name_matches(#[trigger] old.files@[(s + e) % n], query) by {
        assert(!matches_after(old.files@, s, query, e));
    }
}

} // verus!

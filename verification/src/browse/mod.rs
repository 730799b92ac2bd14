//! The terminal file browser: its state, its reactions to keys, and the
//! decisions of its main loop. The loop itself (drawing, waiting for keys,
//! talking to the service) is the caller's; it asks `next_step` what to do
//! and hands back what came of it.
pub mod app;
pub mod events;
pub mod sort;
pub mod ui;

use vstd::prelude::*;

use crate::browse::app::{AppState, BrowserApp, BreadcrumbEntry, ModalState, PendingAction, files_shown, last_row, search_results_shown, with_last_name};
use crate::browse::events::{FileEffect, Key, KeyCode, is_interrupt, key_handled};
use crate::put::files::{File, FilesResponse};
use crate::text::{concat2, join, owned};

verus! {

/// What the loop is to do next.
pub enum LoopStep {
    /// Leave the browser.
    Quit,
    /// Fetch the listing of the folder, then call `finish_load`.
    LoadFolder { folder_id: i64 },
    /// Search the account, then call `finish_search`.
    Search { query: String },
    /// Find the folder path of a file (see `PathWalk`), then call
    /// `finish_copy_path`.
    CopyPath { file_name: String, parent_id: i64 },
    /// Delete the file, then call `finish_delete`.
    Delete { file_id: i64 },
    /// Leave the screen and download the file.
    Download { file_id: i64 },
    /// Nothing to do: wait for a key.
    Poll,
}

/// Advances the spinner's animation by one frame.
pub fn begin_frame(app: &mut BrowserApp)
    ensures
        *final(app) == (BrowserApp { tick: (if old(app).tick == 255 { 0 } else { old(app).tick + 1 }) as u8, ..*old(app) }),
{
    app.tick = if app.tick == 255 { 0 } else { app.tick + 1 };
}

/// What the loop does next, given the browser's state: quit when asked to;
/// reload the folder when a reload is due (showing the spinner); else carry
/// out the pending action, which is cleared; going to a folder is done
/// here and asks for a reload.
pub open spec fn next_step_spec(old: BrowserApp, new: BrowserApp, step: LoopStep) -> bool {
    if old.app_state is Quitting {
        new == old && step is Quit
    } else if old.needs_reload {
        &&& step == (LoopStep::LoadFolder { folder_id: old.current_folder_id })
        &&& if old.modal is Loading {
            new == (BrowserApp { needs_reload: false, ..old })
        } else {
            &&& new.spinner_label@ == "Loading..."@
            &&& new == (BrowserApp { needs_reload: false, spinner_label: new.spinner_label, modal: ModalState::Loading, ..old })
        }
    } else {
        let cleared = BrowserApp { pending_action: PendingAction::Idle, ..old };
        match old.pending_action {
            PendingAction::Idle => new == cleared && step is Poll,
            PendingAction::Search { query } => new == cleared && step == (LoopStep::Search { query }),
            PendingAction::CopyPath { file_name, parent_id } => new == cleared && step == (LoopStep::CopyPath { file_name, parent_id }),
            PendingAction::Delete { file_id } => new == cleared && step == (LoopStep::Delete { file_id }),
            PendingAction::Download { file_id } => new == cleared && step == (LoopStep::Download { file_id }),
            PendingAction::GoToFolder { parent_id, file_id } => {
                &&& step is Poll
                &&& new.needs_reload
                &&& exists|mid: BrowserApp| #[trigger] crate::browse::app::navigated_to(cleared, parent_id, file_id, mid)
                    && new == (BrowserApp { needs_reload: true, ..mid })
            },
        }
    }
}

/// Decides the loop's next step and updates the browser accordingly.
pub fn next_step(app: &mut BrowserApp) -> (step: LoopStep)
    requires
        old(app).wf(),
    ensures
        final(app).wf(),
        next_step_spec(*old(app), *final(app), step),
{
    if matches!(app.app_state, AppState::Quitting) {
        return LoopStep::Quit;
    }
    if app.needs_reload {
        app.needs_reload = false;
        if !matches!(app.modal, ModalState::Loading) {
            app.spinner_label = owned("Loading...");
            app.modal = ModalState::Loading;
        }
        return LoopStep::LoadFolder { folder_id: app.current_folder_id };
    }
    let mut pending = PendingAction::Idle;
    core::mem::swap(&mut pending, &mut app.pending_action);
    match pending {
        PendingAction::Idle => LoopStep::Poll,
        PendingAction::Search { query } => LoopStep::Search { query },
        PendingAction::CopyPath { file_name, parent_id } => LoopStep::CopyPath { file_name, parent_id },
        PendingAction::Delete { file_id } => LoopStep::Delete { file_id },
        PendingAction::Download { file_id } => LoopStep::Download { file_id },
        PendingAction::GoToFolder { parent_id, file_id } => {
            let ghost cleared = *app;
            app.navigate_to_folder(parent_id, file_id);
            let ghost mid = *app;
            app.needs_reload = true;
            proof {
                assert(crate::browse::app::navigated_to(cleared, parent_id, file_id, mid));
            }
            LoopStep::Poll
        },
    }
}

/// Whether the browser is to close.
pub fn is_quitting(app: &BrowserApp) -> (res: bool)
    ensures
        res == (app.app_state is Quitting),
{
    matches!(app.app_state, AppState::Quitting)
}

/// `new` is `old` once a folder's listing has arrived (`Ok`) or fetching it
/// failed: on success the last breadcrumb takes the folder's name when it
/// stands for the current folder (the root keeps its own), then the listing
/// is shown; on failure the error is shown.
pub open spec fn load_finished(old: BrowserApp, result: Result<FilesResponse, String>, new: BrowserApp) -> bool {
    match result {
        Ok(r) => {
            let renamed = old.current_folder_id != 0 && old.breadcrumbs@.last().id == old.current_folder_id;
            exists|mid: BrowserApp| {
                &&& mid == (BrowserApp { breadcrumbs: mid.breadcrumbs, ..old })
                &&& mid.breadcrumbs@ == if renamed { with_last_name(old.breadcrumbs@, r.parent.name) } else { old.breadcrumbs@ }
                &&& #[trigger] files_shown(mid, r.files@, new)
            }
        },
        Err(e) => new == (BrowserApp { modal: ModalState::Error(e), ..old }),
    }
}

/// `new` is `old` once a deletion has been carried out (`Ok`) or has
/// failed: on success the folder is to be reloaded, the spinner saying
/// "Loading..."; on failure "Delete failed: " and the error are shown.
pub open spec fn delete_finished(old: BrowserApp, result: Result<(), String>, new: BrowserApp) -> bool {
    match result {
        Ok(_) => new.spinner_label@ == "Loading..."@
            && new == (BrowserApp { spinner_label: new.spinner_label, needs_reload: true, ..old }),
        Err(e) => new.modal matches ModalState::Error(m) && m@ == "Delete failed: "@ + e@
            && new == (BrowserApp { modal: new.modal, ..old }),
    }
}

/// A folder's listing has arrived, or fetching it failed. On success the
/// last breadcrumb takes the folder's name when it stands for the current
/// folder (the root keeps its own), then the listing is shown; on failure
/// the error is shown.
pub fn finish_load(app: &mut BrowserApp, result: Result<FilesResponse, String>)
    requires
        old(app).wf(),
    ensures
        final(app).wf(),
        load_finished(*old(app), result, *final(app)),
{
    match result {
        Ok(r) => {
            let n = app.breadcrumbs.len();
            if app.current_folder_id != 0 && app.breadcrumbs[n - 1].id == app.current_folder_id {
                let last = &app.breadcrumbs[n - 1];
                let entry = BreadcrumbEntry {
                    id: last.id,
                    name: r.parent.name,
                    saved_index: last.saved_index,
                    saved_offset: last.saved_offset,
                };
                app.breadcrumbs.set(n - 1, entry);
            }
            let ghost mid = *app;
            let ghost files = r.files@;
            app.set_files(r.files);
            proof {
                assert(files_shown(mid, files, *app));
            }
        },
        Err(e) => {
            app.modal = ModalState::Error(e);
        },
    }
}

/// Search results have arrived, or the search failed ("Search failed: "
/// and the error is shown).
pub fn finish_search(app: &mut BrowserApp, query: &str, result: Result<Vec<File>, String>)
    requires
        old(app).wf(),
    ensures
        final(app).wf(),
        match result {
            Ok(files) => search_results_shown(*old(app), query@, files@, *final(app)),
            Err(e) => final(app).modal matches ModalState::Error(m) && m@ == "Search failed: "@ + e@
                && *final(app) == (BrowserApp { modal: final(app).modal, ..*old(app) }),
        },
{
    match result {
        Ok(files) => app.enter_search_results(query, files),
        Err(e) => {
            app.modal = ModalState::Error(concat2("Search failed: ", e.as_str()));
        },
    }
}

/// A deletion has been carried out, or failed. On success the folder is
/// reloaded (the spinner says "Loading..."); on failure "Delete failed: "
/// and the error are shown.
pub fn finish_delete(app: &mut BrowserApp, result: Result<(), String>)
    ensures
        delete_finished(*old(app), result, *final(app)),
{
    match result {
        Ok(_) => {
            app.spinner_label = owned("Loading...");
            app.needs_reload = true;
        },
        Err(e) => {
            app.modal = ModalState::Error(concat2("Delete failed: ", e.as_str()));
        },
    }
}

/// The views of a list of strings.
pub open spec fn views(v: Seq<String>) -> Seq<Seq<char>> {
    v.map_values(|s: String| s@)
}

/// The folder path of a file has been found, or finding it failed. On
/// success the path to copy is returned: the folder names and then the
/// file's name, joined by "/"; on failure the error is shown.
pub fn finish_copy_path(app: &mut BrowserApp, file_name: String, result: Result<Vec<String>, String>) -> (path: Option<String>)
    ensures
        match result {
            Ok(parts) => *final(app) == *old(app) && (path matches Some(p) && p@ == join(views(parts@).push(file_name@), "/"@)),
            Err(e) => path is None && *final(app) == (BrowserApp { modal: ModalState::Error(e), ..*old(app) }),
        },
{
    match result {
        Ok(parts) => {
            let mut parts = parts;
            let ghost before = views(parts@);
            parts.push(file_name);
            proof {
                assert(views(parts@) =~= before.push(file_name@));
            }
            Some(join_strings(&parts, "/"))
        },
        Err(e) => {
            app.modal = ModalState::Error(e);
            None
        },
    }
}

/// The strings joined by `sep`.
pub fn join_strings(parts: &Vec<String>, sep: &str) -> (res: String)
    ensures
        res@ == join(views(parts@), sep@),
{
    let mut res = String::new();
    let mut i: usize = 0;
    while i < parts.len()
        invariant
            i <= parts@.len(),
            res@ == join(views(parts@.take(i as int)), sep@),
        decreases parts@.len() - i,
    {
        let ghost prev = views(parts@.take(i as int));
        proof {
            assert(views(parts@.take(i + 1)) =~= prev.push(parts@[i as int]@));
            assert(views(parts@.take(i + 1)).drop_last() =~= prev);
        }
        if i > 0 {
            crate::text::push_str(&mut res, sep);
        } else {
            proof {
                assert(prev.len() == 0);
            }
        }
        crate::text::push_str(&mut res, parts[i].as_str());
        i = i + 1;
    }
    proof {
        assert(parts@.take(parts@.len() as int) =~= parts@);
    }
    res
}

/// The longest folder path that a path lookup follows.
pub open spec fn max_path_depth() -> int {
    256
}

/// The lookup of a file's folder path, one parent folder at a time, from
/// the file's folder up to the root.
pub struct PathWalk {
    /// The folder whose name comes next.
    pub parent_id: i64,
    /// The names found so far, innermost first.
    pub parts: Vec<String>,
    /// How many folders have been asked for.
    pub depth: usize,
}

/// What the path lookup needs next, or how it ended.
pub enum PathStep {
    /// Fetch the listing of this folder and hand its name and parent to
    /// `PathWalk::receive`.
    Fetch(i64),
    /// The folder names from the root down.
    Done(Vec<String>),
    /// The lookup failed with this message.
    Failed(String),
}

impl PathWalk {
    /// The walk's state is sound: the fetches made stay within the limit and
    /// at most one fetch is outstanding.
    pub open spec fn wf(&self) -> bool {
        &&& self.depth <= max_path_depth()
        &&& self.parts@.len() <= self.depth <= self.parts@.len() + 1
    }

    /// What the next step of a walk at `self` (with no fetch outstanding)
    /// is: the end at the root, a failure past the depth limit, else a
    /// fetch of the current folder.
    pub open spec fn next_spec(self, new: PathWalk, step: PathStep) -> bool {
        if self.parent_id == 0 {
            new == self && (step matches PathStep::Done(names) && views(names@) == views(self.parts@).reverse())
        } else if self.depth + 1 > max_path_depth() {
            new == (PathWalk { depth: (self.depth + 1) as usize, ..self })
                && (step matches PathStep::Failed(m) && m@ == "Path lookup failed: path too deep."@)
        } else {
            new == (PathWalk { depth: (self.depth + 1) as usize, ..self }) && step == PathStep::Fetch(self.parent_id)
        }
    }

    fn advance(&mut self) -> (step: PathStep)
        requires
            old(self).wf(),
            old(self).depth == old(self).parts@.len(),
        ensures
            old(self).next_spec(*final(self), step),
            step is Fetch ==> final(self).wf() && final(self).depth == final(self).parts@.len() + 1,
    {
        if self.parent_id == 0 {
            let mut names: Vec<String> = Vec::new();
            let mut i: usize = self.parts.len();
            while i > 0
                invariant
                    i <= self.parts@.len(),
                    views(names@) == views(self.parts@).reverse().take((self.parts@.len() - i) as int),
                decreases i,
            {
                i = i - 1;
                let ghost before = views(names@);
                names.push(self.parts[i].clone());
                proof {
                    let r = views(self.parts@).reverse();
                    let k = (self.parts@.len() - i - 1) as int;
                    assert(views(names@) =~= before.push(self.parts@[i as int]@));
                    assert(r[k] == self.parts@[i as int]@);
                    assert(r.take(k + 1) =~= r.take(k).push(r[k]));
                }
            }
            proof {
                assert(views(self.parts@).reverse().take(self.parts@.len() as int) =~= views(self.parts@).reverse());
            }
            return PathStep::Done(names);
        }
        self.depth = self.depth + 1;
        if self.depth > 256 {
            return PathStep::Failed(owned("Path lookup failed: path too deep."));
        }
        PathStep::Fetch(self.parent_id)
    }

    /// Starts looking up the folder path above `parent_id`.
    pub fn begin(parent_id: i64) -> (res: (PathWalk, PathStep))
        ensures
            parent_id < 0 ==> (res.1 matches PathStep::Failed(m) && m@ == "Path lookup failed: invalid parent id."@),
            parent_id >= 0 ==> (PathWalk { parent_id, parts: res.0.parts, depth: 0 }).next_spec(res.0, res.1)
                && res.0.parts@.len() == 0,
            res.1 is Fetch ==> res.0.wf() && res.0.depth == res.0.parts@.len() + 1,
    {
        let mut walk = PathWalk { parent_id, parts: Vec::new(), depth: 0 };
        if parent_id < 0 {
            return (walk, PathStep::Failed(owned("Path lookup failed: invalid parent id.")));
        }
        let step = walk.advance();
        (walk, step)
    }

    /// The listing of the folder asked for has arrived (its name and its
    /// parent), or fetching it failed. A failure, an empty name, or a folder
    /// that is its own parent ends the lookup with an error; otherwise the
    /// name is recorded and the walk moves to the parent.
    pub fn receive(&mut self, fetched: Result<(String, i64), String>) -> (step: PathStep)
        requires
            old(self).wf(),
            old(self).depth == old(self).parts@.len() + 1,
        ensures
            fetched is Err ==> (step matches PathStep::Failed(m) && m@ == "Path lookup failed: "@ + fetched->Err_0@),
            fetched matches Ok((name, parent)) ==> {
                if name@.len() == 0 {
                    step matches PathStep::Failed(m) && m@ == "Path lookup failed: missing folder name."@
                } else if parent == old(self).parent_id {
                    step matches PathStep::Failed(m) && m@ == "Path lookup failed: parent loop detected."@
                } else {
                    let moved = PathWalk { parent_id: parent, parts: final(self).parts, depth: old(self).depth };
                    &&& views(final(self).parts@) == views(old(self).parts@).push(name@)
                    &&& moved.next_spec(*final(self), step)
                }
            },
            step is Fetch ==> final(self).wf() && final(self).depth == final(self).parts@.len() + 1,
    {
        match fetched {
            Err(e) => {
                let msg = concat2("Path lookup failed: ", e.as_str());
                let step = PathStep::Failed(msg);
                step
            },
            Ok((name, parent)) => {
                if name.as_str().is_empty() {
                    return PathStep::Failed(owned("Path lookup failed: missing folder name."));
                }
                if parent == self.parent_id {
                    return PathStep::Failed(owned("Path lookup failed: parent loop detected."));
                }
                let ghost before = views(self.parts@);
                self.parts.push(name);
                proof {
                    assert(views(self.parts@) =~= before.push(name@));
                }
                self.parent_id = parent;
                self.advance()
            },
        }
    }
}

/// Deleting a file puts the cursor back where it was once the folder has
/// been listed again: confirming the deletion, carrying it out and
/// reloading the folder leave the cursor on the same row, or on the last one
/// when the listing has become shorter, with the list scrolled as before
/// within the same bounds.
pub proof fn law_cursor_survives_a_deletion(
    s0: BrowserApp,
    key: Key,
    api_token: Seq<char>,
    s1: BrowserApp,
    effect: FileEffect,
    s2: BrowserApp,
    step2: LoopStep,
    s3: BrowserApp,
    s4: BrowserApp,
    step4: LoopStep,
    listing: FilesResponse,
    s5: BrowserApp,
)
    requires
        s0.wf(),
        s0.app_state is Browsing,
        !s0.needs_reload,
        s0.pending_select_id is None,
        s0.modal is ConfirmDelete,
        key.code == KeyCode::Char('y'),
        key_handled(s0, key, api_token, s1, effect),
        next_step_spec(s1, s2, step2),
        delete_finished(s2, Ok(()), s3),
        next_step_spec(s3, s4, step4),
        load_finished(s4, Ok(listing), s5),
    ensures
        step2 == (LoopStep::Delete { file_id: s0.modal->ConfirmDelete_file_id }),
        step4 == (LoopStep::LoadFolder { folder_id: s0.current_folder_id }),
        s5.selected_index == vstd::math::min(s0.selected_index as int, last_row(listing.files@.len())),
        s5.list_state.offset == vstd::math::min(s0.list_state.offset as int, last_row(listing.files@.len())),
        s5.modal is Hidden,
{
    assert(!is_interrupt(key));
    let mid = choose|mid: BrowserApp| {
        &&& mid == (BrowserApp { breadcrumbs: mid.breadcrumbs, ..s4 })
        &&& mid.breadcrumbs@ == if s4.current_folder_id != 0 && s4.breadcrumbs@.last().id == s4.current_folder_id {
            with_last_name(s4.breadcrumbs@, listing.parent.name)
        } else {
            s4.breadcrumbs@
        }
        &&& #[trigger] files_shown(mid, listing.files@, s5)
    };
    assert(mid.restore_index == Some(s0.selected_index));
    assert(mid.restore_offset == Some(s0.list_state.offset));
}

} // verus!

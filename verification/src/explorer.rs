//! The explorer's state, and how each user action changes it.
//!
//! Work outside the process (listing a directory, reading an archive,
//! touching files, the clipboard, opening programs) is not done here: a
//! transition that needs it returns an [`Effect`] naming it, and the
//! caller performs it and hands the result to the matching transition
//! (`load_dir`, `load_zip_dir`, `set_preview`, `file_op_finished`, ...).

use vstd::prelude::*;
use std::collections::HashSet;
use crate::archive::{ZipEntry, parent_zip_dir, parent_dir_text};
use crate::constants::{ICO_WARN, ICO_CHECK, ICO_INFO, PKG_NAME, PKG_VERSION};
use crate::context_menu::{ContextTarget, MenuAction, items_for, menu_for, target_path, is_zip_path, has_zip_extension};
use crate::listing::{Entry, ExplorerError, error_text, retain_shown, shown};
use crate::paths::{parent, parent_of, file_name, file_name_of};
use crate::text::{push_str};
use crate::types::{ContextMenu, MenuBarAction, MenuBarMenu, Modal, PreviewContent, ViewLocation, ZipView};

verus! {

broadcast use vstd::std_specs::hash::group_hash_axioms;

/// Outside work a transition asks for.
#[derive(Debug)]
pub enum Effect {
    /// Nothing to do.
    Nothing,
    /// List this directory and pass the result to `load_dir`.
    ListDir(String),
    /// Read this archive and pass the listing of `inner_dir` to `load_zip_dir`.
    ListZip { zip_path: String, inner_dir: String },
    /// Inspect this entry and pass what it shows to `set_preview`.
    Preview(Entry),
    /// Open this path with the desktop's default program.
    OpenDefault(String),
    /// Show this path in the system file manager (its folder, for a file).
    Reveal(String),
    /// Put this text on the clipboard.
    CopyText(String),
    /// Read this path's properties and open the properties window.
    Properties(String),
    /// Give the text field of the open dialog the keyboard focus.
    FocusInput,
    /// Delete this path (recursively for a directory), then report to `file_op_finished`.
    Delete(String),
    /// Rename `from` to `to`, then report to `file_op_finished`.
    Rename { from: String, to: String },
    /// Create a directory or file named after `name` in `parent`, then report to `file_op_finished`.
    Create { parent: String, name: String, is_dir: bool },
    /// Unpack this archive into `dest`, then report to `extract_finished`.
    Extract { zip_path: String, dest: String },
    /// Close the application.
    Quit,
}

/// The file explorer window's state.
pub struct Explorer {
    pub history: Vec<ViewLocation>,
    pub current_dir: String,
    pub entries: Vec<Entry>,
    pub selected: Option<usize>,
    pub multi_selected: HashSet<usize>,
    pub status: Option<String>,
    pub context_menu: Option<ContextMenu>,
    pub modal: Option<Modal>,
    pub menu_bar_open: Option<MenuBarMenu>,
    pub show_hidden: bool,
    pub sidebar_open: bool,
    pub show_preview: bool,
    pub preview_content: Option<PreviewContent>,
    pub preview_entry: Option<Entry>,
    pub quickaccess_collapsed: bool,
    pub drives_collapsed: bool,
    pub zip_view: Option<ZipView>,
}

/// The status line after a directory could not be listed.
pub open spec fn warn_text(e: ExplorerError) -> Seq<char> {
    ICO_WARN@ + "  "@ + error_text(e)
}

/// The view settings and panels are the same in both states.
pub open spec fn same_settings(a: Explorer, b: Explorer) -> bool {
    &&& b.show_hidden == a.show_hidden
    &&& b.sidebar_open == a.sidebar_open
    &&& b.show_preview == a.show_preview
    &&& b.quickaccess_collapsed == a.quickaccess_collapsed
    &&& b.drives_collapsed == a.drives_collapsed
}

/// What is listed, selected and previewed is the same in both states.
pub open spec fn same_listing(a: Explorer, b: Explorer) -> bool {
    &&& b.entries == a.entries
    &&& b.selected == a.selected
    &&& b.multi_selected == a.multi_selected
    &&& b.preview_content == a.preview_content
    &&& b.preview_entry == a.preview_entry
    &&& b.zip_view == a.zip_view
}

/// Everything but the history is the same in both states.
pub open spec fn same_but_history(a: Explorer, b: Explorer) -> bool {
    &&& same_settings(a, b)
    &&& same_listing(a, b)
    &&& b.current_dir == a.current_dir
    &&& b.status == a.status
    &&& b.context_menu == a.context_menu
    &&& b.modal == a.modal
    &&& b.menu_bar_open == a.menu_bar_open
}

/// `b` is `a` after showing directory `path` from `listing`: a listing
/// replaces the entries (hidden ones dropped unless shown) and clears
/// selection, status, preview and archive view; an error only sets the
/// status line. Either way the explorer is at `path` with no context menu.
pub open spec fn loaded_dir(a: Explorer, b: Explorer, path: String, listing: Result<Vec<Entry>, ExplorerError>) -> bool {
    &&& same_settings(a, b)
    &&& b.history == a.history
    &&& b.modal == a.modal
    &&& b.menu_bar_open == a.menu_bar_open
    &&& b.current_dir == path
    &&& b.context_menu is None
    &&& match listing {
        Ok(v) => {
            &&& b.entries@ == shown(v@, a.show_hidden)
            &&& b.selected is None
            &&& b.multi_selected@ == Set::<usize>::empty()
            &&& b.status is None
            &&& b.preview_content is None
            &&& b.preview_entry is None
            &&& b.zip_view is None
        },
        Err(e) => {
            &&& same_listing(a, b)
            &&& b.status matches Some(s) && s@ == warn_text(e)
        },
    }
}

impl Explorer {
    /// Shows directory `path` from its `listing` (the result of listing it).
    pub fn load_dir(&mut self, path: String, listing: Result<Vec<Entry>, ExplorerError>)
        ensures
            loaded_dir(*old(self), *final(self), path, listing),
    {
        match listing {
            Ok(entries) => {
                let shown_entries = retain_shown(entries, self.show_hidden);
                self.entries = shown_entries;
                self.selected = None;
                self.multi_selected.clear();
                self.status = None;
                self.preview_content = None;
                self.preview_entry = None;
                self.zip_view = None;
            },
            Err(e) => {
                let mut s = String::new();
                push_str(&mut s, ICO_WARN);
                push_str(&mut s, "  ");
                let m = e.message();
                push_str(&mut s, m.as_str());
                self.status = Some(s);
            },
        }
        self.current_dir = path;
        self.context_menu = None;
    }

    /// The state shown at start-up: the directory `start` with its `listing`,
    /// the sidebar open, hidden files and preview off, nothing selected.
    pub fn new(start: String, listing: Result<Vec<Entry>, ExplorerError>) -> (r: Explorer)
        ensures
            r.history@.len() == 0,
            !r.show_hidden && r.sidebar_open && !r.show_preview,
            !r.quickaccess_collapsed && !r.drives_collapsed,
            r.modal is None && r.menu_bar_open is None,
            r.current_dir == start,
            r.context_menu is None,
            r.selected is None,
            r.multi_selected@ == Set::<usize>::empty(),
            r.preview_content is None && r.preview_entry is None && r.zip_view is None,
            match listing {
                Ok(v) => r.entries@ == shown(v@, false) && r.status is None,
                Err(e) => r.entries@.len() == 0 && (r.status matches Some(s) && s@ == warn_text(e)),
            },
    {
        let mut this = Explorer {
            history: Vec::new(),
            current_dir: start.clone(),
            entries: Vec::new(),
            selected: None,
            multi_selected: HashSet::new(),
            status: None,
            context_menu: None,
            modal: None,
            menu_bar_open: None,
            show_hidden: false,
            sidebar_open: true,
            show_preview: false,
            preview_content: None,
            preview_entry: None,
            quickaccess_collapsed: false,
            drives_collapsed: false,
            zip_view: None,
        };
        this.load_dir(start, listing);
        this
    }
}

/// `b` is `a` after asking to go into directory `path`: the current
/// directory is remembered in the history, and `path` is to be listed.
pub open spec fn navigated_into(a: Explorer, b: Explorer, path: String, e: Effect) -> bool {
    &&& b.history@ == a.history@.push(ViewLocation::FileSystem(a.current_dir))
    &&& same_but_history(a, b)
    &&& e == Effect::ListDir(path)
}

/// `b` is `a` after going back: the last remembered location is taken off
/// the history and is to be shown again (leaving any archive view when it
/// is a directory); with an empty history nothing happens.
pub open spec fn went_back(a: Explorer, b: Explorer, e: Effect) -> bool {
    &&& same_settings(a, b)
    &&& b.current_dir == a.current_dir
    &&& b.status == a.status
    &&& b.context_menu == a.context_menu
    &&& b.modal == a.modal
    &&& b.menu_bar_open == a.menu_bar_open
    &&& b.entries == a.entries
    &&& b.selected == a.selected
    &&& b.multi_selected == a.multi_selected
    &&& b.preview_content == a.preview_content
    &&& b.preview_entry == a.preview_entry
    &&& if a.history@.len() == 0 {
        b.history@ == a.history@ && b.zip_view == a.zip_view && e == Effect::Nothing
    } else {
        &&& b.history@ == a.history@.drop_last()
        &&& match a.history@.last() {
            ViewLocation::FileSystem(p) => b.zip_view is None && e == Effect::ListDir(p),
            ViewLocation::ZipArchive { zip_path, inner_dir } => b.zip_view == a.zip_view
                && e == (Effect::ListZip { zip_path, inner_dir }),
        }
    }
}

/// `b` is `a` after asking to go to the parent directory: the current
/// directory is remembered and its parent is to be listed; at a root
/// nothing happens.
pub open spec fn went_up(a: Explorer, b: Explorer, e: Effect) -> bool {
    match parent_of(a.current_dir@) {
        Some(p) => b.history@ == a.history@.push(ViewLocation::FileSystem(a.current_dir))
            && same_but_history(a, b)
            && (e matches Effect::ListDir(q) && q@ == p),
        None => b == a && e == Effect::Nothing,
    }
}

/// The checked set after clicking the header check box with `n` entries listed.
pub open spec fn all_toggled(checked: Set<usize>, n: nat) -> Set<usize> {
    if checked.is_empty() {
        Set::new(|i: usize| i < n)
    } else {
        Set::<usize>::empty()
    }
}

/// The checked set after clicking the check box of entry `idx`.
pub open spec fn toggled(checked: Set<usize>, idx: usize) -> Set<usize> {
    if checked.contains(idx) {
        checked.remove(idx)
    } else {
        checked.insert(idx)
    }
}

impl Explorer {
    /// Goes into directory `path`, remembering where it came from.
    pub fn navigate_into(&mut self, path: String) -> (e: Effect)
        ensures
            navigated_into(*old(self), *final(self), path, e),
    {
        let prev = ViewLocation::FileSystem(self.current_dir.clone());
        self.history.push(prev);
        Effect::ListDir(path)
    }

    /// Goes back to the last remembered location, if any.
    pub fn navigate_back(&mut self) -> (e: Effect)
        ensures
            went_back(*old(self), *final(self), e),
    {
        match self.history.pop() {
            None => Effect::Nothing,
            Some(ViewLocation::FileSystem(p)) => {
                self.zip_view = None;
                Effect::ListDir(p)
            },
            Some(ViewLocation::ZipArchive { zip_path, inner_dir }) => Effect::ListZip { zip_path, inner_dir },
        }
    }

    /// Goes to the parent of the current directory, remembering where it
    /// came from; does nothing at a root.
    pub fn navigate_up(&mut self) -> (e: Effect)
        ensures
            went_up(*old(self), *final(self), e),
    {
        match parent(self.current_dir.as_str()) {
            Some(p) => {
                self.history.push(ViewLocation::FileSystem(self.current_dir.clone()));
                Effect::ListDir(p)
            },
            None => Effect::Nothing,
        }
    }

    /// Opens the context menu for `target` (closing any dialog or menu-bar menu).
    pub fn open_context_menu(&mut self, target: ContextTarget)
        ensures
            final(self).context_menu matches Some(m) && m.target == target && m.items@ == menu_for(target),
            final(self).modal is None,
            final(self).menu_bar_open is None,
            same_settings(*old(self), *final(self)),
            same_listing(*old(self), *final(self)),
            final(self).history == old(self).history,
            final(self).current_dir == old(self).current_dir,
            final(self).status == old(self).status,
    {
        let items = items_for(&target);
        self.context_menu = Some(ContextMenu { target, items });
        self.modal = None;
        self.menu_bar_open = None;
    }

    /// Closes the context menu; tells whether one was open.
    pub fn close_context_menu(&mut self) -> (was_open: bool)
        ensures
            was_open == (old(self).context_menu is Some),
            *final(self) == (Explorer { context_menu: None, ..*old(self) }),
    {
        self.context_menu.take().is_some()
    }

    /// Closes the dialog; tells whether one was open.
    pub fn close_modal(&mut self) -> (was_open: bool)
        ensures
            was_open == (old(self).modal is Some),
            *final(self) == (Explorer { modal: None, ..*old(self) }),
    {
        self.modal.take().is_some()
    }

    /// Shows a short message.
    pub fn set_toast(&mut self, msg: String)
        ensures
            *final(self) == (Explorer { modal: Some(Modal::Toast(msg)), ..*old(self) }),
    {
        self.modal = Some(Modal::Toast(msg));
    }

    /// Selects the entry at `idx`; with the preview pane open, asks for the
    /// preview of that entry.
    pub fn select_entry(&mut self, idx: usize) -> (e: Effect)
        ensures
            *final(self) == (Explorer { selected: Some(idx), ..*old(self) }),
            if old(self).show_preview && idx < old(self).entries@.len() {
                e == Effect::Preview(old(self).entries@[idx as int])
            } else {
                e == Effect::Nothing
            },
    {
        self.selected = Some(idx);
        if self.show_preview && idx < self.entries.len() {
            Effect::Preview(self.entries[idx].clone())
        } else {
            Effect::Nothing
        }
    }

    /// Shows `content` in the preview pane for `entry`.
    pub fn set_preview(&mut self, entry: Entry, content: PreviewContent)
        ensures
            *final(self) == (Explorer { preview_entry: Some(entry), preview_content: Some(content), ..*old(self) }),
    {
        self.preview_content = Some(content);
        self.preview_entry = Some(entry);
    }

    /// Checks or unchecks the entry at `idx`, which also becomes the selection.
    pub fn toggle_multi_select(&mut self, idx: usize)
        ensures
            final(self).multi_selected@ == toggled(old(self).multi_selected@, idx),
            final(self).selected == Some(idx),
            final(self).entries == old(self).entries,
            final(self).history == old(self).history,
            final(self).current_dir == old(self).current_dir,
            final(self).status == old(self).status,
            final(self).context_menu == old(self).context_menu,
            final(self).modal == old(self).modal,
            final(self).menu_bar_open == old(self).menu_bar_open,
            final(self).preview_content == old(self).preview_content,
            final(self).preview_entry == old(self).preview_entry,
            final(self).zip_view == old(self).zip_view,
            same_settings(*old(self), *final(self)),
    {
        if self.multi_selected.contains(&idx) {
            self.multi_selected.remove(&idx);
        } else {
            self.multi_selected.insert(idx);
        }
        self.selected = Some(idx);
    }

    /// Unchecks everything; tells whether anything was checked.
    pub fn clear_multi_select(&mut self) -> (changed: bool)
        ensures
            changed == !old(self).multi_selected@.is_empty(),
            final(self).multi_selected@ == Set::<usize>::empty(),
            *final(self) == (Explorer { multi_selected: final(self).multi_selected, ..*old(self) }),
    {
        if !self.multi_selected.is_empty() {
            self.multi_selected.clear();
            true
        } else {
            false
        }
    }

    /// The header check box: checks every entry when none is checked,
    /// otherwise unchecks all.
    pub fn toggle_select_all(&mut self)
        ensures
            final(self).multi_selected@ == all_toggled(old(self).multi_selected@, old(self).entries@.len()),
            *final(self) == (Explorer { multi_selected: final(self).multi_selected, ..*old(self) }),
    {
        if self.multi_selected.is_empty() {
            let n = self.entries.len();
            let mut all: HashSet<usize> = HashSet::new();
            let mut i: usize = 0;
            while i < n
                invariant
                    i <= n,
                    all@ == Set::new(|k: usize| k < i),
                decreases n - i,
            {
                all.insert(i);
                i = i + 1;
                assert(all@ =~= Set::new(|k: usize| k < i));
            }
            self.multi_selected = all;
        } else {
            self.multi_selected.clear();
        }
    }
}

/// Law: going into a directory, showing it, and going back asks to show
/// the directory left, with the history as it was before.
pub proof fn law_back_after_into(
    s0: Explorer,
    s1: Explorer,
    s2: Explorer,
    s3: Explorer,
    path: String,
    listing: Result<Vec<Entry>, ExplorerError>,
    e1: Effect,
    e3: Effect,
)
    requires
        navigated_into(s0, s1, path, e1),
        loaded_dir(s1, s2, path, listing),
        went_back(s2, s3, e3),
    ensures
        e3 == Effect::ListDir(s0.current_dir),
        s3.history@ == s0.history@,
{
    assert(s2.history@ == s0.history@.push(ViewLocation::FileSystem(s0.current_dir)));
    assert(s2.history@.len() > 0);
    assert(s2.history@.last() == ViewLocation::FileSystem(s0.current_dir));
    assert(s2.history@.drop_last() =~= s0.history@);
}

/// Law: going up to the parent directory, showing it, and going back asks
/// to show the directory left, with the history as it was before.
pub proof fn law_back_after_up(
    s0: Explorer,
    s1: Explorer,
    s2: Explorer,
    s3: Explorer,
    path: String,
    listing: Result<Vec<Entry>, ExplorerError>,
    e1: Effect,
    e3: Effect,
)
    requires
        parent_of(s0.current_dir@) is Some,
        went_up(s0, s1, e1),
        e1 == Effect::ListDir(path),
        loaded_dir(s1, s2, path, listing),
        went_back(s2, s3, e3),
    ensures
        e3 == Effect::ListDir(s0.current_dir),
        s3.history@ == s0.history@,
{
    assert(s2.history@ == s0.history@.push(ViewLocation::FileSystem(s0.current_dir)));
    assert(s2.history@.last() == ViewLocation::FileSystem(s0.current_dir));
    assert(s2.history@.drop_last() =~= s0.history@);
}

/// Law: with at least one entry listed, clicking the header check box
/// twice leaves nothing checked when nothing was, and everything checked
/// when something was.
pub proof fn law_select_all_twice(checked: Set<usize>, n: nat)
    requires
        n > 0,
    ensures
        all_toggled(all_toggled(checked, n), n) == if checked.is_empty() {
            Set::<usize>::empty()
        } else {
            Set::new(|i: usize| i < n)
        },
{
    let full = Set::new(|i: usize| i < n);
    assert(full.contains(0));
    assert(!full.is_empty());
    assert(Set::<usize>::empty().is_empty());
}

/// Law: clicking the check box of the same entry twice leaves the checked
/// set as it was.
pub proof fn law_toggle_twice(checked: Set<usize>, idx: usize)
    ensures
        toggled(toggled(checked, idx), idx) == checked,
{
    assert(toggled(toggled(checked, idx), idx) =~= checked);
}

/// A file operation whose outcome is reported back.
#[derive(Clone, Copy, Debug, PartialEq, Eq, Structural)]
pub enum FileOp {
    Delete,
    Rename,
    Create,
}

/// The word naming a failed operation in its message.
pub open spec fn op_word(op: FileOp) -> Seq<char> {
    match op {
        FileOp::Delete => "Delete"@,
        FileOp::Rename => "Rename"@,
        FileOp::Create => "Create"@,
    }
}

/// `b` is `a` with the toast `m` shown and nothing else changed.
pub open spec fn toasted(a: Explorer, b: Explorer, m: Seq<char>) -> bool {
    &&& b.modal matches Some(Modal::Toast(t)) && t@ == m
    &&& b == (Explorer { modal: b.modal, ..a })
}

/// `b` is `a` after asking to browse archive `zip_path` from its top: the
/// current directory is remembered in the history.
pub open spec fn opened_zip(a: Explorer, b: Explorer, zip_path: String, e: Effect) -> bool {
    &&& b.history@ == a.history@.push(ViewLocation::FileSystem(a.current_dir))
    &&& same_but_history(a, b)
    &&& e matches Effect::ListZip { zip_path: z, inner_dir: i } && z == zip_path && i@.len() == 0
}

/// `b` is `a` after showing directory `inner_dir` of archive `zip_path`
/// from `listing`; a failure only shows a toast.
pub open spec fn loaded_zip_dir(a: Explorer, b: Explorer, zip_path: String, inner_dir: String, listing: Result<Vec<ZipEntry>, String>) -> bool {
    match listing {
        Ok(v) => {
            &&& same_settings(a, b)
            &&& b.history == a.history
            &&& b.modal == a.modal
            &&& b.menu_bar_open == a.menu_bar_open
            &&& b.entries == a.entries
            &&& b.zip_view matches Some(zv) && zv.zip_path == zip_path && zv.inner_dir == inner_dir && zv.entries == v
            &&& b.selected is None
            &&& b.multi_selected@ == Set::<usize>::empty()
            &&& b.status is None
            &&& b.preview_content is None
            &&& b.preview_entry is None
            &&& b.context_menu is None
            &&& match parent_of(zip_path@) {
                Some(p) => b.current_dir@ == p,
                None => b.current_dir == a.current_dir,
            }
        },
        Err(m) => toasted(a, b, ICO_WARN@ + "  Cannot open zip: "@ + m@),
    }
}

/// `b` is `a` after asking to go into subdirectory `subdir` of the archive
/// directory shown: where it was is remembered, and the subdirectory is to
/// be listed. Outside an archive nothing happens.
pub open spec fn zip_went_into(a: Explorer, b: Explorer, subdir: Seq<char>, e: Effect) -> bool {
    match a.zip_view {
        Some(zv) => {
            &&& b.history@ == a.history@.push(ViewLocation::ZipArchive { zip_path: zv.zip_path, inner_dir: zv.inner_dir })
            &&& same_but_history(a, b)
            &&& e matches Effect::ListZip { zip_path: z, inner_dir: i } && z == zv.zip_path && i@ == zv.inner_dir@ + subdir
        },
        None => b == a && e == Effect::Nothing,
    }
}

/// `b` is `a` after the up (or back) button in an archive: the directory
/// above is to be listed, the one left being pushed on the history; at the
/// archive's top the archive view closes and the last history item is
/// dropped. Outside an archive nothing happens.
pub open spec fn zip_went_up(a: Explorer, b: Explorer, e: Effect) -> bool {
    match a.zip_view {
        Some(zv) => match parent_dir_text(zv.inner_dir@) {
            Some(p) => {
                &&& b.history@ == a.history@.push(ViewLocation::ZipArchive { zip_path: zv.zip_path, inner_dir: zv.inner_dir })
                &&& same_but_history(a, b)
                &&& e matches Effect::ListZip { zip_path: z, inner_dir: i } && z == zv.zip_path && i@ == p
            },
            None => {
                &&& b.zip_view is None
                &&& b.history@ == if a.history@.len() == 0 { a.history@ } else { a.history@.drop_last() }
                &&& e == Effect::Nothing
                &&& b == (Explorer { zip_view: None, history: b.history, ..a })
            },
        },
        None => b == a && e == Effect::Nothing,
    }
}

impl Explorer {
    /// Starts browsing the archive at `zip_path`, remembering where it came from.
    pub fn open_zip_browser(&mut self, zip_path: String) -> (e: Effect)
        ensures
            opened_zip(*old(self), *final(self), zip_path, e),
    {
        self.history.push(ViewLocation::FileSystem(self.current_dir.clone()));
        Effect::ListZip { zip_path, inner_dir: String::new() }
    }

    /// Shows directory `inner_dir` of the archive at `zip_path` from its
    /// `listing` (see `archive::zip_entries_for_dir`).
    pub fn load_zip_dir(&mut self, zip_path: String, inner_dir: String, listing: Result<Vec<ZipEntry>, String>)
        ensures
            loaded_zip_dir(*old(self), *final(self), zip_path, inner_dir, listing),
    {
        match listing {
            Ok(entries) => {
                let up = parent(zip_path.as_str());
                self.zip_view = Some(ZipView { zip_path, inner_dir, entries });
                self.selected = None;
                self.multi_selected.clear();
                self.status = None;
                self.preview_content = None;
                self.preview_entry = None;
                match up {
                    Some(p) => self.current_dir = p,
                    None => {},
                }
                self.context_menu = None;
            },
            Err(e) => {
                let mut m = String::new();
                push_str(&mut m, ICO_WARN);
                push_str(&mut m, "  Cannot open zip: ");
                push_str(&mut m, e.as_str());
                self.set_toast(m);
            },
        }
    }

    /// Goes into subdirectory `subdir` (a name followed by `/`) of the
    /// archive directory shown, remembering where it came from.
    pub fn zip_navigate_into_dir(&mut self, subdir: &str) -> (e: Effect)
        ensures
            zip_went_into(*old(self), *final(self), subdir@, e),
    {
        match &self.zip_view {
            None => Effect::Nothing,
            Some(zv) => {
                let zip_path = zv.zip_path.clone();
                let mut new_inner = zv.inner_dir.clone();
                push_str(&mut new_inner, subdir);
                let here = ViewLocation::ZipArchive { zip_path: zip_path.clone(), inner_dir: zv.inner_dir.clone() };
                self.history.push(here);
                Effect::ListZip { zip_path, inner_dir: new_inner }
            },
        }
    }

    /// Goes up one directory inside the archive; at its top, leaves the
    /// archive view (dropping the last history item).
    pub fn zip_navigate_back(&mut self) -> (e: Effect)
        ensures
            zip_went_up(*old(self), *final(self), e),
    {
        match &self.zip_view {
            None => Effect::Nothing,
            Some(zv) => {
                let inner = zv.inner_dir.clone();
                let zip_path = zv.zip_path.clone();
                match parent_zip_dir(inner.as_str()) {
                    None => {
                        self.zip_view = None;
                        let _ = self.history.pop();
                        Effect::Nothing
                    },
                    Some(p) => {
                        self.history.push(ViewLocation::ZipArchive { zip_path: zip_path.clone(), inner_dir: inner });
                        Effect::ListZip { zip_path, inner_dir: p }
                    },
                }
            },
        }
    }

    /// Closes the dialog and asks for the archive to be unpacked.
    pub fn do_extract_zip(&mut self, zip_path: String, dest: String) -> (e: Effect)
        ensures
            *final(self) == (Explorer { modal: None, ..*old(self) }),
            e == (Effect::Extract { zip_path, dest }),
    {
        self.modal = None;
        Effect::Extract { zip_path, dest }
    }

    /// Reports an unpacking: on success a toast and a fresh listing of the
    /// current directory, on failure a toast with the reason.
    pub fn extract_finished(&mut self, dest: String, result: Result<(), String>) -> (e: Effect)
        ensures
            match result {
                Ok(()) => toasted(*old(self), *final(self), ICO_CHECK@ + "  Extracted to "@ + dest@)
                    && e == Effect::ListDir(old(self).current_dir),
                Err(m) => toasted(*old(self), *final(self), ICO_WARN@ + "  Extract failed: "@ + m@)
                    && e == Effect::Nothing,
            },
    {
        match result {
            Ok(()) => {
                let mut m = String::new();
                push_str(&mut m, ICO_CHECK);
                push_str(&mut m, "  Extracted to ");
                push_str(&mut m, dest.as_str());
                self.set_toast(m);
                Effect::ListDir(self.current_dir.clone())
            },
            Err(err) => {
                let mut m = String::new();
                push_str(&mut m, ICO_WARN);
                push_str(&mut m, "  Extract failed: ");
                push_str(&mut m, err.as_str());
                self.set_toast(m);
                Effect::Nothing
            },
        }
    }

    /// Closes the dialog and asks for `path` to be deleted.
    pub fn do_delete(&mut self, path: String) -> (e: Effect)
        ensures
            *final(self) == (Explorer { modal: None, ..*old(self) }),
            e == Effect::Delete(path),
    {
        self.modal = None;
        Effect::Delete(path)
    }

    /// Closes the dialog and asks for `path` to be renamed to `new_name`
    /// (trimmed) in the same directory.
    pub fn do_rename(&mut self, path: String, new_name: String) -> (e: Effect)
        ensures
            *final(self) == (Explorer { modal: None, ..*old(self) }),
            e matches Effect::Rename { from, to } && from == path && to@ == crate::ops::rename_target_text(path@, new_name@),
    {
        self.modal = None;
        let to = crate::ops::rename_target(path.as_str(), new_name.as_str());
        Effect::Rename { from: path, to }
    }

    /// Closes the dialog and asks for a directory or file named after
    /// `name` to be created in `parent`.
    pub fn do_new_item(&mut self, parent: String, name: String, is_dir: bool) -> (e: Effect)
        ensures
            *final(self) == (Explorer { modal: None, ..*old(self) }),
            e == (Effect::Create { parent, name, is_dir }),
    {
        self.modal = None;
        Effect::Create { parent, name, is_dir }
    }

    /// Reports a delete, rename or create: on success the current directory
    /// is listed again, on failure a toast gives the reason.
    pub fn file_op_finished(&mut self, op: FileOp, result: Result<(), ExplorerError>) -> (e: Effect)
        ensures
            match result {
                Ok(()) => *final(self) == *old(self) && e == Effect::ListDir(old(self).current_dir),
                Err(err) => toasted(*old(self), *final(self), ICO_WARN@ + "  "@ + op_word(op) + " failed: "@ + error_text(err))
                    && e == Effect::Nothing,
            },
    {
        match result {
            Ok(()) => Effect::ListDir(self.current_dir.clone()),
            Err(err) => {
                let mut m = String::new();
                push_str(&mut m, ICO_WARN);
                push_str(&mut m, "  ");
                match op {
                    FileOp::Delete => push_str(&mut m, "Delete"),
                    FileOp::Rename => push_str(&mut m, "Rename"),
                    FileOp::Create => push_str(&mut m, "Create"),
                }
                push_str(&mut m, " failed: ");
                let t = err.message();
                push_str(&mut m, t.as_str());
                self.set_toast(m);
                Effect::Nothing
            },
        }
    }

    /// Reports that the properties of a path could not be read.
    pub fn properties_failed(&mut self, err: ExplorerError)
        ensures
            toasted(*old(self), *final(self), ICO_WARN@ + "  "@ + error_text(err)),
    {
        let mut m = String::new();
        push_str(&mut m, ICO_WARN);
        push_str(&mut m, "  ");
        let t = err.message();
        push_str(&mut m, t.as_str());
        self.set_toast(m);
    }
}

/// The folder an action on `t` works in: the directory itself, or the
/// folder holding a file (the current directory when a file has no parent).
pub open spec fn folder_of(current_dir: Seq<char>, t: ContextTarget) -> Seq<char> {
    match t {
        ContextTarget::Background { current_dir: d } => d@,
        ContextTarget::Directory(p) => p@,
        ContextTarget::Drive(p) => p@,
        ContextTarget::File(p) => match parent_of(p@) {
            Some(q) => q,
            None => current_dir,
        },
    }
}

/// The final component of `p`, or nothing.
pub open spec fn name_or_empty(p: Seq<char>) -> Seq<char> {
    match file_name_of(p) {
        Some(n) => n,
        None => Seq::empty(),
    }
}

/// `b` is `a` with dialog `m` open and nothing else changed.
pub open spec fn with_modal(a: Explorer, b: Explorer) -> bool {
    b == (Explorer { modal: b.modal, ..a })
}

/// What a context-menu action leads to, from state `c` (the context menu
/// already closed) to state `b`, asking for `e`.
pub open spec fn action_done(c: Explorer, b: Explorer, action: MenuAction, target: ContextTarget, e: Effect) -> bool {
    let tp = target_path(target);
    match action {
        MenuAction::NavigateTo => navigated_into(c, b, tp, e),
        MenuAction::Open => if has_zip_extension(tp@) {
            opened_zip(c, b, tp, e)
        } else {
            b == c && e == Effect::OpenDefault(tp)
        },
        MenuAction::BrowseZip => opened_zip(c, b, tp, e),
        MenuAction::ExtractHere => with_modal(c, b) && e == Effect::Nothing && (b.modal matches Some(
            Modal::ExtractZip { zip_path, dest },
        ) && zip_path == tp && dest@ == match parent_of(tp@) {
            Some(q) => q,
            None => c.current_dir@,
        }),
        MenuAction::OpenInExplorer => b == c && e == Effect::Reveal(tp),
        MenuAction::CopyPath => toasted(c, b, ICO_CHECK@ + "  Copied path: "@ + tp@) && (e matches Effect::CopyText(t) && t@ == tp@),
        MenuAction::CopyName => toasted(c, b, ICO_CHECK@ + "  Copied name: "@ + name_or_empty(tp@)) && (e matches Effect::CopyText(t) && t@ == name_or_empty(tp@)),
        MenuAction::Refresh => b == c && (e matches Effect::ListDir(d) && d@ == folder_of(c.current_dir@, target)),
        MenuAction::NewFolder => with_modal(c, b) && e == Effect::FocusInput && (b.modal matches Some(
            Modal::NewItem { parent, name, is_dir },
        ) && parent@ == folder_of(c.current_dir@, target) && name@ == "New Folder"@ && is_dir),
        MenuAction::NewFile => with_modal(c, b) && e == Effect::FocusInput && (b.modal matches Some(
            Modal::NewItem { parent, name, is_dir },
        ) && parent@ == folder_of(c.current_dir@, target) && name@ == "New File.txt"@ && !is_dir),
        MenuAction::Rename => with_modal(c, b) && e == Effect::FocusInput && (b.modal matches Some(
            Modal::Rename { path, name },
        ) && path == tp && name@ == name_or_empty(tp@)),
        MenuAction::Delete => with_modal(c, b) && e == Effect::Nothing && b.modal == Some(Modal::ConfirmDelete { path: tp }),
        MenuAction::Properties => b == c && e == Effect::Properties(tp),
    }
}

impl Explorer {
    /// The folder an action on `target` works in (see `folder_of`).
    fn folder_for(&self, target: &ContextTarget) -> (r: String)
        ensures
            r@ == folder_of(self.current_dir@, *target),
    {
        match target {
            ContextTarget::Background { current_dir } => current_dir.clone(),
            ContextTarget::Directory(p) | ContextTarget::Drive(p) => p.clone(),
            ContextTarget::File(p) => match parent(p.as_str()) {
                Some(q) => q,
                None => self.current_dir.clone(),
            },
        }
    }

    /// Carries out a context-menu action on `target`; the menu closes first.
    pub fn execute_action(&mut self, action: MenuAction, target: ContextTarget) -> (e: Effect)
        ensures
            action_done(Explorer { context_menu: None, ..*old(self) }, *final(self), action, target, e),
    {
        self.context_menu = None;
        let tp: String = match target.path() {
            Some(p) => p.clone(),
            None => String::new(),
        };
        match action {
            MenuAction::NavigateTo => self.navigate_into(tp),
            MenuAction::Open => {
                if is_zip_path(tp.as_str()) {
                    self.open_zip_browser(tp)
                } else {
                    Effect::OpenDefault(tp)
                }
            },
            MenuAction::BrowseZip => self.open_zip_browser(tp),
            MenuAction::ExtractHere => {
                let dest = match parent(tp.as_str()) {
                    Some(q) => q,
                    None => self.current_dir.clone(),
                };
                self.modal = Some(Modal::ExtractZip { zip_path: tp, dest });
                Effect::Nothing
            },
            MenuAction::OpenInExplorer => Effect::Reveal(tp),
            MenuAction::CopyPath => {
                let mut m = String::new();
                push_str(&mut m, ICO_CHECK);
                push_str(&mut m, "  Copied path: ");
                push_str(&mut m, tp.as_str());
                self.set_toast(m);
                Effect::CopyText(tp)
            },
            MenuAction::CopyName => {
                let name = match file_name(tp.as_str()) {
                    Some(n) => n,
                    None => String::new(),
                };
                let mut m = String::new();
                push_str(&mut m, ICO_CHECK);
                push_str(&mut m, "  Copied name: ");
                push_str(&mut m, name.as_str());
                self.set_toast(m);
                Effect::CopyText(name)
            },
            MenuAction::Refresh => Effect::ListDir(self.folder_for(&target)),
            MenuAction::NewFolder => {
                let parent = self.folder_for(&target);
                let mut name = String::new();
                push_str(&mut name, "New Folder");
                self.modal = Some(Modal::NewItem { parent, name, is_dir: true });
                Effect::FocusInput
            },
            MenuAction::NewFile => {
                let parent = self.folder_for(&target);
                let mut name = String::new();
                push_str(&mut name, "New File.txt");
                self.modal = Some(Modal::NewItem { parent, name, is_dir: false });
                Effect::FocusInput
            },
            MenuAction::Rename => {
                let name = match file_name(tp.as_str()) {
                    Some(n) => n,
                    None => String::new(),
                };
                self.modal = Some(Modal::Rename { path: tp, name });
                Effect::FocusInput
            },
            MenuAction::Delete => {
                self.modal = Some(Modal::ConfirmDelete { path: tp });
                Effect::Nothing
            },
            MenuAction::Properties => Effect::Properties(tp),
        }
    }
}

/// What a menu-bar action leads to, from state `c` (the menu already
/// closed) to state `b`, asking for `e`.
pub open spec fn menu_bar_done(c: Explorer, b: Explorer, action: MenuBarAction, e: Effect) -> bool {
    match action {
        MenuBarAction::NewFolder => with_modal(c, b) && e == Effect::FocusInput && b.modal == Some(
            Modal::NewItem { parent: c.current_dir, name: b.modal->Some_0->NewItem_name, is_dir: true },
        ) && b.modal->Some_0->NewItem_name@ == "New Folder"@,
        MenuBarAction::NewFile => with_modal(c, b) && e == Effect::FocusInput && b.modal == Some(
            Modal::NewItem { parent: c.current_dir, name: b.modal->Some_0->NewItem_name, is_dir: false },
        ) && b.modal->Some_0->NewItem_name@ == "New File.txt"@,
        MenuBarAction::Refresh => b == c && e == Effect::ListDir(c.current_dir),
        MenuBarAction::ToggleHidden => b == (Explorer { show_hidden: !c.show_hidden, ..c }) && e == Effect::ListDir(c.current_dir),
        MenuBarAction::ToggleSidebar => b == (Explorer { sidebar_open: !c.sidebar_open, ..c }) && e == Effect::Nothing,
        MenuBarAction::TogglePreview => b == (Explorer { show_preview: !c.show_preview, ..c }) && if !c.show_preview
            && c.selected is Some && c.selected->Some_0 < c.entries@.len() {
            e == Effect::Preview(c.entries@[c.selected->Some_0 as int])
        } else {
            e == Effect::Nothing
        },
        MenuBarAction::About => toasted(c, b, ICO_INFO@ + "  "@ + PKG_NAME@ + " v"@ + PKG_VERSION@) && e == Effect::Nothing,
        MenuBarAction::Quit => b == c && e == Effect::Quit,
    }
}

impl Explorer {
    /// Carries out a menu-bar action; the menu closes first.
    pub fn execute_mb_action(&mut self, action: MenuBarAction) -> (e: Effect)
        ensures
            menu_bar_done(Explorer { menu_bar_open: None, ..*old(self) }, *final(self), action, e),
    {
        self.menu_bar_open = None;
        match action {
            MenuBarAction::NewFolder => {
                let mut name = String::new();
                push_str(&mut name, "New Folder");
                self.modal = Some(Modal::NewItem { parent: self.current_dir.clone(), name, is_dir: true });
                Effect::FocusInput
            },
            MenuBarAction::NewFile => {
                let mut name = String::new();
                push_str(&mut name, "New File.txt");
                self.modal = Some(Modal::NewItem { parent: self.current_dir.clone(), name, is_dir: false });
                Effect::FocusInput
            },
            MenuBarAction::Refresh => Effect::ListDir(self.current_dir.clone()),
            MenuBarAction::ToggleHidden => {
                self.show_hidden = !self.show_hidden;
                Effect::ListDir(self.current_dir.clone())
            },
            MenuBarAction::ToggleSidebar => {
                self.sidebar_open = !self.sidebar_open;
                Effect::Nothing
            },
            MenuBarAction::TogglePreview => {
                self.show_preview = !self.show_preview;
                match self.selected {
                    Some(idx) if self.show_preview && idx < self.entries.len() => Effect::Preview(self.entries[idx].clone()),
                    _ => Effect::Nothing,
                }
            },
            MenuBarAction::About => {
                let mut m = String::new();
                push_str(&mut m, ICO_INFO);
                push_str(&mut m, "  ");
                push_str(&mut m, PKG_NAME);
                push_str(&mut m, " v");
                push_str(&mut m, PKG_VERSION);
                self.set_toast(m);
                Effect::Nothing
            },
            MenuBarAction::Quit => Effect::Quit,
        }
    }

    /// A click on menu-bar button `menu`: closes that menu if it is open,
    /// otherwise opens it (closing any context menu).
    pub fn click_menu_bar(&mut self, menu: MenuBarMenu)
        ensures
            if old(self).menu_bar_open == Some(menu) {
                *final(self) == (Explorer { menu_bar_open: None, ..*old(self) })
            } else {
                *final(self) == (Explorer { menu_bar_open: Some(menu), context_menu: None, ..*old(self) })
            },
    {
        if self.menu_bar_open == Some(menu) {
            self.menu_bar_open = None;
        } else {
            self.menu_bar_open = Some(menu);
            self.context_menu = None;
        }
    }

    /// A click outside the menus closes them.
    pub fn dismiss_menus(&mut self)
        ensures
            *final(self) == (Explorer { context_menu: None, menu_bar_open: None, ..*old(self) }),
    {
        self.context_menu = None;
        self.menu_bar_open = None;
    }

    /// A click on a sidebar section header (`"qa-hdr"` for quick access,
    /// `"drives-hdr"` for drives) folds or unfolds that section.
    pub fn toggle_section(&mut self, id: &str)
        ensures
            if id@ == "qa-hdr"@ {
                *final(self) == (Explorer { quickaccess_collapsed: !old(self).quickaccess_collapsed, ..*old(self) })
            } else if id@ == "drives-hdr"@ {
                *final(self) == (Explorer { drives_collapsed: !old(self).drives_collapsed, ..*old(self) })
            } else {
                *final(self) == *old(self)
            },
    {
        let qa = crate::text::owned("qa-hdr");
        let dr = crate::text::owned("drives-hdr");
        let idv = crate::text::owned(id);
        if idv == qa {
            self.quickaccess_collapsed = !self.quickaccess_collapsed;
        } else if idv == dr {
            self.drives_collapsed = !self.drives_collapsed;
        }
    }

    /// Flips the sidebar (the toolbar button).
    pub fn toggle_sidebar(&mut self)
        ensures
            *final(self) == (Explorer { sidebar_open: !old(self).sidebar_open, ..*old(self) }),
    {
        self.sidebar_open = !self.sidebar_open;
    }

    /// Flips the preview pane (the toolbar button); when it opens on a
    /// selected entry, asks for that entry's preview.
    pub fn toggle_preview(&mut self) -> (e: Effect)
        ensures
            *final(self) == (Explorer { show_preview: !old(self).show_preview, ..*old(self) }),
            if !old(self).show_preview && old(self).selected is Some && old(self).selected->Some_0 < old(self).entries@.len() {
                e == Effect::Preview(old(self).entries@[old(self).selected->Some_0 as int])
            } else {
                e == Effect::Nothing
            },
    {
        self.show_preview = !self.show_preview;
        match self.selected {
            Some(idx) if self.show_preview && idx < self.entries.len() => Effect::Preview(self.entries[idx].clone()),
            _ => Effect::Nothing,
        }
    }

    /// Closes the preview pane (its close button).
    pub fn close_preview(&mut self)
        ensures
            *final(self) == (Explorer { show_preview: false, ..*old(self) }),
    {
        self.show_preview = false;
    }
}

impl Explorer {
    /// Asks for the properties window of `path`.
    pub fn open_properties_window(&self, path: String) -> (e: Effect)
        ensures
            e == Effect::Properties(path),
    {
        Effect::Properties(path)
    }
}

/// What "show in explorer" opens: the folder of a file, a directory itself.
pub fn reveal_target(path: &str, is_file: bool) -> (r: String)
    ensures
        r@ == if is_file { match parent_of(path@) { Some(q) => q, None => path@ } } else { path@ },
{
    if is_file {
        match parent(path) {
            Some(q) => q,
            None => crate::text::owned(path),
        }
    } else {
        crate::text::owned(path)
    }
}

/// Law: in an archive directory `inner` (empty or ending in `/`), going
/// into its subdirectory `name`, showing it, and going up again asks to
/// show `inner` of the same archive.
pub proof fn law_zip_up_after_into(
    s0: Explorer,
    s1: Explorer,
    s2: Explorer,
    s3: Explorer,
    name: Seq<char>,
    listing: Vec<ZipEntry>,
    e1: Effect,
    e3: Effect,
)
    requires
        s0.zip_view is Some,
        s0.zip_view->Some_0.inner_dir@.len() == 0 || s0.zip_view->Some_0.inner_dir@.last() == '/',
        name.len() > 0,
        forall|j: int| 0 <= j < name.len() ==> name[j] != '/',
        zip_went_into(s0, s1, name + seq!['/'], e1),
        e1 matches Effect::ListZip { zip_path: z, inner_dir: i }
            && loaded_zip_dir(s1, s2, z, i, Ok(listing)),
        zip_went_up(s2, s3, e3),
    ensures
        e3 matches Effect::ListZip { zip_path: z, inner_dir: i } && z == s0.zip_view->Some_0.zip_path
            && i@ == s0.zip_view->Some_0.inner_dir@,
{
    let inner = s0.zip_view->Some_0.inner_dir@;
    crate::archive::law_parent_of_child_dir(inner, name);
    assert(inner + (name + seq!['/']) =~= inner + name + seq!['/']);
}

/// Law: after a listing is shown with hidden files off, no shown entry is hidden.
pub proof fn law_hidden_stay_hidden(a: Explorer, b: Explorer, path: String, entries: Vec<Entry>)
    requires
        !a.show_hidden,
        loaded_dir(a, b, path, Ok(entries)),
    ensures
        forall|k: int| 0 <= k < b.entries@.len() ==> !crate::listing::is_hidden(#[trigger] b.entries@[k]),
{
    crate::listing::lemma_shown_not_hidden(entries@);
}

/// Law: with hidden files shown every entry is kept; otherwise exactly the
/// entries whose name does not start with `.` are kept, in their order.
pub proof fn law_shown_drops_only_dot_names(entries: Seq<Entry>)
    ensures
        crate::listing::shown(entries, true) == entries,
        crate::listing::shown(entries, false) == entries.filter(|e: Entry| !(e.name@.len() > 0 && e.name@[0] == '.')),
    decreases entries.len(),
{
    let keep = |e: Entry| !(e.name@.len() > 0 && e.name@[0] == '.');
    reveal(Seq::filter);
    if entries.len() > 0 {
        law_shown_drops_only_dot_names(entries.drop_last());
        assert(crate::listing::shown(entries.drop_last(), false) == entries.drop_last().filter(keep));
        assert(entries.filter(keep) == if keep(entries.last()) {
            entries.drop_last().filter(keep).push(entries.last())
        } else {
            entries.drop_last().filter(keep)
        });
    }
    assert(crate::listing::shown(entries, false) == entries.filter(keep));
}

} // verus!

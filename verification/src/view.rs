//! What the window shows, derived from the explorer's state, and how
//! clicks and keys in it become transitions.

use vstd::prelude::*;
use vstd::string::StringSliceAdditionalSpecFns;
use crate::archive::{ZipEntry, trim_slashes};
use crate::constants::{
    ICO_ARCHIVE, ICO_WARN, ICO_FOLDER, COL_DIR, COL_ZIP, COL_FILE, COL_TEXT, ICO_NEW_FOLDER,
    ICO_NEW_FILE, ICO_REFRESH, ICO_QUIT, ICO_EYE, ICO_EYE_SLASH, ICO_SIDEBAR_OPEN,
    ICO_SIDEBAR_CLOSE, ICO_PREVIEW_TOGGLE, ICO_INFO,
};
use crate::explorer::{Explorer, Effect, name_or_empty, navigated_into, opened_zip};
use crate::format::{fmt_size, size_text, fmt_modified, modified_text};
use crate::listing::Entry;
use crate::paths::{file_name, parent, parent_of, to_lowercase, lowercase_of};
use crate::text::{push_str, push_decimal, decimal, contains, contains_text, ends_with, has_suffix, owned};
use crate::types::{MenuBarAction, MenuBarMenu, Modal};
use crate::utils::{file_icon, file_icon_color, icon_for, lower_ext};

verus! {

broadcast use vstd::std_specs::hash::group_hash_axioms;

/// The text of the location bar.
pub open spec fn location_text(s: Explorer) -> Seq<char> {
    match s.zip_view {
        Some(zv) => ICO_ARCHIVE@ + "  "@ + name_or_empty(zv.zip_path@) + if zv.inner_dir@.len() == 0 {
            Seq::empty()
        } else {
            " / "@ + trim_slashes(zv.inner_dir@)
        },
        None => s.current_dir@,
    }
}

/// The count shown in the status bar.
pub open spec fn count_text(s: Explorer) -> Seq<char> {
    let total: nat = match s.zip_view {
        Some(zv) => zv.entries@.len(),
        None => s.entries@.len(),
    };
    if s.multi_selected@.len() > 0 {
        decimal(s.multi_selected@.len()) + " selected / "@ + decimal(total) + " items"@
    } else {
        decimal(total) + " items"@
    }
}

impl Explorer {
    /// The location bar: the current directory, or the archive and the
    /// directory inside it.
    pub fn path_display(&self) -> (r: String)
        ensures
            r@ == location_text(*self),
    {
        match &self.zip_view {
            Some(zv) => {
                let mut s = String::new();
                push_str(&mut s, ICO_ARCHIVE);
                push_str(&mut s, "  ");
                match file_name(zv.zip_path.as_str()) {
                    Some(n) => push_str(&mut s, n.as_str()),
                    None => {},
                }
                if !zv.inner_dir.as_str().is_empty() {
                    push_str(&mut s, " / ");
                    let t = crate::archive::trimmed_dir(zv.inner_dir.as_str());
                    push_str(&mut s, t.as_str());
                }
                s
            },
            None => self.current_dir.clone(),
        }
    }

    /// Whether the back button is enabled.
    pub fn has_back(&self) -> (r: bool)
        ensures
            r == (self.history@.len() > 0),
    {
        self.history.len() > 0
    }

    /// Whether the up button is enabled.
    pub fn has_up(&self) -> (r: bool)
        ensures
            r == match self.zip_view {
                Some(zv) => zv.inner_dir@.len() > 0,
                None => parent_of(self.current_dir@) is Some,
            },
    {
        match &self.zip_view {
            Some(zv) => !zv.inner_dir.as_str().is_empty(),
            None => parent(self.current_dir.as_str()).is_some(),
        }
    }

    /// The item count of the status bar.
    pub fn entry_count_label(&self) -> (r: String)
        ensures
            r@ == count_text(*self),
    {
        let total: usize = match &self.zip_view {
            Some(zv) => zv.entries.len(),
            None => self.entries.len(),
        };
        let sel = self.multi_selected.len();
        let mut s = String::new();
        if sel > 0 {
            push_decimal(&mut s, sel as u64);
            push_str(&mut s, " selected / ");
        }
        push_decimal(&mut s, total as u64);
        push_str(&mut s, " items");
        s
    }

    /// Whether the status line reports a failure (it carries the warning icon).
    pub fn status_is_error(&self) -> (r: bool)
        ensures
            r == (self.status matches Some(m) && contains_text(m@, ICO_WARN@)),
    {
        match &self.status {
            Some(m) => contains(m.as_str(), ICO_WARN),
            None => false,
        }
    }
}

impl Explorer {
    /// Whether the toast shown reports a failure.
    pub fn is_toast_error(&self) -> (r: bool)
        ensures
            r == (self.modal matches Some(Modal::Toast(m)) && contains_text(m@, ICO_WARN@)),
    {
        match &self.modal {
            Some(Modal::Toast(m)) => contains(m.as_str(), ICO_WARN),
            _ => false,
        }
    }
}

/// Whether a toast reports a failure (it carries the warning icon).
pub fn is_error_message(msg: &str) -> (r: bool)
    ensures
        r == contains_text(msg@, ICO_WARN@),
{
    contains(msg, ICO_WARN)
}

/// The bar above the list when entries are checked: `"n item(s) selected"`.
pub fn selection_label(n: usize) -> (r: String)
    ensures
        r@ == decimal(n as nat) + " item"@ + (if n == 1 { Seq::empty() } else { "s"@ }) + " selected"@,
{
    let mut s = String::new();
    push_decimal(&mut s, n as u64);
    push_str(&mut s, " item");
    if n != 1 {
        push_str(&mut s, "s");
    }
    push_str(&mut s, " selected");
    s
}

/// What a right click on the row of `path` opens a menu for: the
/// directory, or the file.
pub fn row_target(path: String, is_dir: bool) -> (r: crate::context_menu::ContextTarget)
    ensures
        r == if is_dir { crate::context_menu::ContextTarget::Directory(path) } else { crate::context_menu::ContextTarget::File(path) },
{
    if is_dir {
        crate::context_menu::ContextTarget::Directory(path)
    } else {
        crate::context_menu::ContextTarget::File(path)
    }
}

/// How one row of the file list looks.
#[derive(Debug)]
pub struct RowView {
    pub icon: &'static str,
    pub icon_color: u32,
    pub name_color: u32,
    pub is_zip: bool,
    pub size_text: String,
    pub modified_text: String,
}

/// A file (not a directory) whose lowercase name ends in `.zip`.
pub open spec fn row_is_zip(e: Entry) -> bool {
    !e.is_dir && has_suffix(lowercase_of(e.name@), ".zip"@)
}

/// How the row of `entry` looks: directories and archives get their own
/// colours, other files an icon by extension; the size column is empty for
/// directories and the time column empty when unknown.
pub fn render_row_view(entry: &Entry) -> (r: RowView)
    ensures
        r.is_zip == row_is_zip(*entry),
        r.icon@ == if entry.is_dir { ICO_FOLDER@ } else { icon_for(lower_ext(entry.name@)) },
        r.icon_color == if entry.is_dir { COL_DIR } else if r.is_zip { COL_ZIP } else { COL_FILE },
        r.name_color == if entry.is_dir { COL_DIR } else if r.is_zip { COL_ZIP } else { COL_TEXT },
        r.size_text@ == match entry.size { Some(b) => size_text(b), None => Seq::empty() },
        r.modified_text@ == modified_text(entry.modified),
{
    let is_dir = entry.is_dir;
    let is_zip = !is_dir && {
        let low = to_lowercase(entry.name.as_str());
        ends_with(low.as_str(), ".zip")
    };
    let icon = if is_dir { ICO_FOLDER } else { file_icon(entry.name.as_str()) };
    RowView {
        icon,
        icon_color: if is_dir { COL_DIR } else if is_zip { COL_ZIP } else { COL_FILE },
        name_color: if is_dir { COL_DIR } else if is_zip { COL_ZIP } else { COL_TEXT },
        is_zip,
        size_text: match entry.size {
            Some(b) => fmt_size(b),
            None => String::new(),
        },
        modified_text: fmt_modified(entry.modified),
    }
}

/// How one row of an archive listing looks.
#[derive(Debug)]
pub struct ZipRowView {
    pub icon: &'static str,
    pub icon_color: u32,
    pub size_text: String,
    pub compressed_text: String,
    pub subdir: String,
}

/// How the row of archive item `ze` looks; `subdir` is what a double click
/// on a directory goes into (its name and a `/`).
pub fn zip_row_view(ze: &ZipEntry) -> (r: ZipRowView)
    ensures
        r.icon@ == if ze.is_dir { ICO_FOLDER@ } else { icon_for(lower_ext(ze.name@)) },
        r.icon_color == if ze.is_dir { COL_DIR } else if lower_ext(ze.name@) == "zip"@ { COL_ZIP } else { COL_FILE },
        r.size_text@ == if ze.is_dir { seq!['\u{2014}'] } else { size_text(ze.size) },
        r.compressed_text@ == if ze.is_dir { seq!['\u{2014}'] } else { size_text(ze.compressed_size) },
        r.subdir@ == ze.name@ + seq!['/'],
{
    let dash = || -> (d: String)
        ensures
            d@ == seq!['\u{2014}'],
    {
        let mut d = String::new();
        d.push('\u{2014}');
        d
    };
    let mut subdir = ze.name.clone();
    subdir.push('/');
    ZipRowView {
        icon: if ze.is_dir { ICO_FOLDER } else { file_icon(ze.name.as_str()) },
        icon_color: if ze.is_dir { COL_DIR } else { file_icon_color(ze.name.as_str()) },
        size_text: if ze.is_dir { dash() } else { fmt_size(ze.size) },
        compressed_text: if ze.is_dir { dash() } else { fmt_size(ze.compressed_size) },
        subdir,
    }
}

impl Explorer {
    /// A click on row `idx` (showing `path`, a directory when `is_dir`, an
    /// archive when `is_zip`): with Ctrl (or the platform key) it checks or
    /// unchecks the row; a single click selects it; a double click opens it
    /// (going into a directory, browsing an archive, otherwise opening the
    /// file with its program). Any context menu closes first.
    pub fn row_clicked(&mut self, idx: usize, path: String, is_dir: bool, is_zip: bool, with_modifier: bool, click_count: usize) -> (e: Effect)
        ensures
            ({
                let c = Explorer { context_menu: None, ..*old(self) };
                if with_modifier {
                    final(self).multi_selected@ == crate::explorer::toggled(c.multi_selected@, idx)
                        && final(self).selected == Some(idx)
                        && *final(self) == (Explorer { multi_selected: final(self).multi_selected, selected: Some(idx), ..c })
                        && e == Effect::Nothing
                } else if click_count == 1 {
                    *final(self) == (Explorer { selected: Some(idx), ..c })
                        && if c.show_preview && idx < c.entries@.len() {
                            e == Effect::Preview(c.entries@[idx as int])
                        } else {
                            e == Effect::Nothing
                        }
                } else if click_count == 2 && is_dir {
                    navigated_into(c, *final(self), path, e)
                } else if click_count == 2 && is_zip {
                    opened_zip(c, *final(self), path, e)
                } else if click_count == 2 {
                    *final(self) == c && e == Effect::OpenDefault(path)
                } else {
                    *final(self) == c && e == Effect::Nothing
                }
            }),
    {
        self.close_context_menu();
        if with_modifier {
            self.toggle_multi_select(idx);
            return Effect::Nothing;
        }
        if click_count == 1 {
            self.select_entry(idx)
        } else if click_count == 2 && is_dir {
            self.navigate_into(path)
        } else if click_count == 2 && is_zip {
            self.open_zip_browser(path)
        } else if click_count == 2 {
            Effect::OpenDefault(path)
        } else {
            Effect::Nothing
        }
    }

    /// A click on an archive row: a double click on a directory goes into it.
    pub fn zip_row_clicked(&mut self, subdir: &str, is_dir: bool, click_count: usize) -> (e: Effect)
        ensures
            !(click_count >= 2 && is_dir) ==> *final(self) == *old(self) && e == Effect::Nothing,
            click_count >= 2 && is_dir && old(self).zip_view is None ==> *final(self) == *old(self) && e == Effect::Nothing,
            click_count >= 2 && is_dir && old(self).zip_view is Some ==> ({
                let zv = old(self).zip_view->Some_0;
                &&& final(self).history@ == old(self).history@.push(crate::types::ViewLocation::ZipArchive { zip_path: zv.zip_path, inner_dir: zv.inner_dir })
                &&& crate::explorer::same_but_history(*old(self), *final(self))
                &&& e matches Effect::ListZip { zip_path: z, inner_dir: i } && z == zv.zip_path && i@ == zv.inner_dir@ + subdir@
            }),
    {
        if click_count >= 2 && is_dir {
            self.zip_navigate_into_dir(subdir)
        } else {
            Effect::Nothing
        }
    }

    /// The back button: inside an archive it goes up a directory of the
    /// archive (leaving it at its top), elsewhere back in the history.
    pub fn back_clicked(&mut self) -> (e: Effect)
        ensures
            old(self).zip_view is Some ==> crate::explorer::zip_went_up(*old(self), *final(self), e),
            old(self).zip_view is None ==> crate::explorer::went_back(*old(self), *final(self), e),
    {
        if self.zip_view.is_some() {
            self.zip_navigate_back()
        } else {
            self.navigate_back()
        }
    }

    /// The up button: inside an archive it goes up a directory of the
    /// archive (leaving it at its top), elsewhere to the parent directory.
    pub fn up_clicked(&mut self) -> (e: Effect)
        ensures
            old(self).zip_view is Some ==> crate::explorer::zip_went_up(*old(self), *final(self), e),
            old(self).zip_view is None ==> crate::explorer::went_up(*old(self), *final(self), e),
    {
        if self.zip_view.is_some() {
            self.zip_navigate_back()
        } else {
            self.navigate_up()
        }
    }

    /// The "Extract All" button of an archive view: asks where to unpack,
    /// proposing the archive's folder (the current directory when it has none).
    pub fn extract_all_clicked(&mut self, zip_path: String)
        ensures
            final(self).modal matches Some(Modal::ExtractZip { zip_path: z, dest }) && z == zip_path
                && dest@ == match parent_of(zip_path@) { Some(q) => q, None => old(self).current_dir@ },
            *final(self) == (Explorer { modal: final(self).modal, ..*old(self) }),
    {
        let dest = match parent(zip_path.as_str()) {
            Some(q) => q,
            None => self.current_dir.clone(),
        };
        self.modal = Some(Modal::ExtractZip { zip_path, dest });
    }
}

/// How a key pressed in a dialog's text field acts on the text.
pub enum KeyEdit {
    Submit,
    Cancel,
    Insert,
    Erase,
    Ignore,
}

/// What key `key` does in a text field: Enter submits, Escape cancels, a
/// one-byte key inserts itself, Backspace erases, anything else is ignored.
pub open spec fn key_edit(key: &str) -> KeyEdit {
    if key@ == "enter"@ {
        KeyEdit::Submit
    } else if key@ == "escape"@ {
        KeyEdit::Cancel
    } else if key.len() == 1 {
        KeyEdit::Insert
    } else if key@ == "backspace"@ {
        KeyEdit::Erase
    } else {
        KeyEdit::Ignore
    }
}

/// `t` after the key `key` edits it.
pub open spec fn edited(t: Seq<char>, key: &str) -> Seq<char> {
    match key_edit(key) {
        KeyEdit::Insert => t + key@,
        KeyEdit::Erase => if t.len() > 0 { t.drop_last() } else { t },
        _ => t,
    }
}

fn classify_key(key: &str) -> (r: KeyEdit)
    ensures
        r == key_edit(key),
{
    let k = owned(key);
    if k == owned("enter") {
        KeyEdit::Submit
    } else if k == owned("escape") {
        KeyEdit::Cancel
    } else if key.len() == 1 {
        KeyEdit::Insert
    } else if k == owned("backspace") {
        KeyEdit::Erase
    } else {
        KeyEdit::Ignore
    }
}

/// Applies an editing key to `t`.
fn edit_text(t: &mut String, key: &str, how: &KeyEdit)
    requires
        *how == key_edit(key),
    ensures
        final(t)@ == edited(old(t)@, key),
{
    match how {
        KeyEdit::Insert => push_str(t, key),
        KeyEdit::Erase => {
            let _ = t.pop();
        },
        _ => {},
    }
}

impl Explorer {
    /// A key pressed in the rename dialog for `path`: Enter renames to the
    /// typed name, Escape closes the dialog, other keys edit the name.
    pub fn rename_key(&mut self, path: String, key: &str) -> (e: Effect)
        ensures
            match key_edit(key) {
                KeyEdit::Submit => match old(self).modal {
                    Some(Modal::Rename { name, .. }) => *final(self) == (Explorer { modal: None, ..*old(self) })
                        && (e matches Effect::Rename { from, to } && from == path && to@ == crate::ops::rename_target_text(path@, name@)),
                    _ => *final(self) == *old(self) && e == Effect::Nothing,
                },
                KeyEdit::Cancel => *final(self) == (Explorer { modal: None, ..*old(self) }) && e == Effect::Nothing,
                _ => e == Effect::Nothing && match old(self).modal {
                    Some(Modal::Rename { path: p, name }) => (final(self).modal matches Some(Modal::Rename { path: p2, name: n2 })
                        && p2 == p && n2@ == edited(name@, key))
                        && *final(self) == (Explorer { modal: final(self).modal, ..*old(self) }),
                    _ => *final(self) == *old(self),
                },
            },
    {
        let how = classify_key(key);
        match how {
            KeyEdit::Submit => {
                let n = match &self.modal {
                    Some(Modal::Rename { name, .. }) => name.clone(),
                    _ => return Effect::Nothing,
                };
                self.do_rename(path, n)
            },
            KeyEdit::Cancel => {
                self.close_modal();
                Effect::Nothing
            },
            _ => {
                match self.modal.take() {
                    Some(Modal::Rename { path: p, mut name }) => {
                        edit_text(&mut name, key, &how);
                        self.modal = Some(Modal::Rename { path: p, name });
                    },
                    other => {
                        self.modal = other;
                    },
                }
                Effect::Nothing
            },
        }
    }

    /// A key pressed in the new-item dialog for `parent`: Enter creates the
    /// typed name, Escape closes the dialog, other keys edit the name.
    pub fn new_item_key(&mut self, parent: String, is_dir: bool, key: &str) -> (e: Effect)
        ensures
            match key_edit(key) {
                KeyEdit::Submit => match old(self).modal {
                    Some(Modal::NewItem { name, .. }) => *final(self) == (Explorer { modal: None, ..*old(self) })
                        && e == (Effect::Create { parent, name, is_dir }),
                    _ => *final(self) == *old(self) && e == Effect::Nothing,
                },
                KeyEdit::Cancel => *final(self) == (Explorer { modal: None, ..*old(self) }) && e == Effect::Nothing,
                _ => e == Effect::Nothing && match old(self).modal {
                    Some(Modal::NewItem { parent: p, name, is_dir: d }) => (final(self).modal matches Some(Modal::NewItem { parent: p2, name: n2, is_dir: d2 })
                        && p2 == p && d2 == d && n2@ == edited(name@, key))
                        && *final(self) == (Explorer { modal: final(self).modal, ..*old(self) }),
                    _ => *final(self) == *old(self),
                },
            },
    {
        let how = classify_key(key);
        match how {
            KeyEdit::Submit => {
                let n = match &self.modal {
                    Some(Modal::NewItem { name, .. }) => name.clone(),
                    _ => return Effect::Nothing,
                };
                self.do_new_item(parent, n, is_dir)
            },
            KeyEdit::Cancel => {
                self.close_modal();
                Effect::Nothing
            },
            _ => {
                match self.modal.take() {
                    Some(Modal::NewItem { parent: p, mut name, is_dir: d }) => {
                        edit_text(&mut name, key, &how);
                        self.modal = Some(Modal::NewItem { parent: p, name, is_dir: d });
                    },
                    other => {
                        self.modal = other;
                    },
                }
                Effect::Nothing
            },
        }
    }
}

/// An item of a menu-bar menu seen as plain values (`None` for a separator).
pub open spec fn bar_item_view(i: Option<(String, MenuBarAction)>) -> Option<(Seq<char>, MenuBarAction)> {
    match i {
        Some((l, a)) => Some((l@, a)),
        None => None,
    }
}

/// The items of menu-bar menu `menu`; the View menu's labels say what each
/// toggle will do given the current settings.
pub open spec fn bar_items(menu: MenuBarMenu, show_hidden: bool, sidebar_open: bool, show_preview: bool) -> Seq<Option<(Seq<char>, MenuBarAction)>> {
    match menu {
        MenuBarMenu::File => seq![
            Some((ICO_NEW_FOLDER@ + "  New Folder"@, MenuBarAction::NewFolder)),
            Some((ICO_NEW_FILE@ + "  New File"@, MenuBarAction::NewFile)),
            None,
            Some((ICO_REFRESH@ + "  Refresh"@, MenuBarAction::Refresh)),
            None,
            Some((ICO_QUIT@ + "  Quit"@, MenuBarAction::Quit)),
        ],
        MenuBarMenu::View => seq![
            Some((if show_hidden { ICO_EYE_SLASH@ + "  Hide Hidden Files"@ } else { ICO_EYE@ + "  Show Hidden Files"@ }, MenuBarAction::ToggleHidden)),
            None,
            Some((if sidebar_open { ICO_SIDEBAR_CLOSE@ + "  Hide Sidebar"@ } else { ICO_SIDEBAR_OPEN@ + "  Show Sidebar"@ }, MenuBarAction::ToggleSidebar)),
            Some((if show_preview { ICO_PREVIEW_TOGGLE@ + "  Hide Preview"@ } else { ICO_PREVIEW_TOGGLE@ + "  Show Preview"@ }, MenuBarAction::TogglePreview)),
        ],
        MenuBarMenu::Help => seq![Some((ICO_INFO@ + "  About"@, MenuBarAction::About))],
    }
}

fn label(icon: &str, text: &str) -> (r: String)
    ensures
        r@ == icon@ + text@,
{
    let mut s = String::new();
    push_str(&mut s, icon);
    push_str(&mut s, text);
    s
}

/// The items of a menu-bar menu, for its dropdown.
pub fn menubar_items(menu: MenuBarMenu, show_hidden: bool, sidebar_open: bool, show_preview: bool) -> (r: Vec<Option<(String, MenuBarAction)>>)
    ensures
        r@.map_values(|i: Option<(String, MenuBarAction)>| bar_item_view(i)) == bar_items(menu, show_hidden, sidebar_open, show_preview),
{
    let mut v: Vec<Option<(String, MenuBarAction)>> = Vec::new();
    match menu {
        MenuBarMenu::File => {
            v.push(Some((label(ICO_NEW_FOLDER, "  New Folder"), MenuBarAction::NewFolder)));
            v.push(Some((label(ICO_NEW_FILE, "  New File"), MenuBarAction::NewFile)));
            v.push(None);
            v.push(Some((label(ICO_REFRESH, "  Refresh"), MenuBarAction::Refresh)));
            v.push(None);
            v.push(Some((label(ICO_QUIT, "  Quit"), MenuBarAction::Quit)));
        },
        MenuBarMenu::View => {
            let hidden = if show_hidden { label(ICO_EYE_SLASH, "  Hide Hidden Files") } else { label(ICO_EYE, "  Show Hidden Files") };
            let side = if sidebar_open { label(ICO_SIDEBAR_CLOSE, "  Hide Sidebar") } else { label(ICO_SIDEBAR_OPEN, "  Show Sidebar") };
            let prev = if show_preview { label(ICO_PREVIEW_TOGGLE, "  Hide Preview") } else { label(ICO_PREVIEW_TOGGLE, "  Show Preview") };
            v.push(Some((hidden, MenuBarAction::ToggleHidden)));
            v.push(None);
            v.push(Some((side, MenuBarAction::ToggleSidebar)));
            v.push(Some((prev, MenuBarAction::TogglePreview)));
        },
        MenuBarMenu::Help => {
            v.push(Some((label(ICO_INFO, "  About"), MenuBarAction::About)));
        },
    }
    assert(v@.map_values(|i: Option<(String, MenuBarAction)>| bar_item_view(i)) =~= bar_items(menu, show_hidden, sidebar_open, show_preview));
    v
}

/// The final component of `path` as dialogs show it (empty when it has none).
pub fn name_label(path: &str) -> (r: String)
    ensures
        r@ == name_or_empty(path@),
{
    match file_name(path) {
        Some(n) => n,
        None => String::new(),
    }
}

/// The folder holding `path` as the rename dialog shows it (empty when it
/// has none).
pub fn folder_label(path: &str) -> (r: String)
    ensures
        r@ == match parent_of(path@) { Some(q) => q, None => Seq::empty() },
{
    match parent(path) {
        Some(q) => q,
        None => String::new(),
    }
}

/// The question of the delete dialog.
pub fn delete_prompt(is_dir: bool) -> (r: String)
    ensures
        r@ == "Permanently delete this "@ + (if is_dir { "folder (and all its contents)"@ } else { "file"@ }) + "?"@,
{
    let mut s = String::new();
    push_str(&mut s, "Permanently delete this ");
    if is_dir {
        push_str(&mut s, "folder (and all its contents)");
    } else {
        push_str(&mut s, "file");
    }
    push_str(&mut s, "?");
    s
}

proof fn lemma_encode_concat(a: Seq<char>, b: Seq<char>)
    ensures
        vstd::utf8::encode_utf8(a + b) == vstd::utf8::encode_utf8(a) + vstd::utf8::encode_utf8(b),
    decreases a.len(),
{
    if a.len() > 0 {
        lemma_encode_concat(a.drop_first(), b);
        assert((a + b).drop_first() =~= a.drop_first() + b);
        assert((a + b)[0] == a[0]);
        assert(vstd::utf8::encode_scalar(a[0] as u32) + (vstd::utf8::encode_utf8(a.drop_first()) + vstd::utf8::encode_utf8(b))
            =~= (vstd::utf8::encode_scalar(a[0] as u32) + vstd::utf8::encode_utf8(a.drop_first())) + vstd::utf8::encode_utf8(b));
    } else {
        assert(a + b =~= b);
    }
}

/// The most bytes of a text the preview shows.
pub const PREVIEW_LIMIT: usize = 4000;

/// The text the preview shows: all of it up to 4000 bytes, else its first
/// 4000 bytes followed by a new line and an ellipsis.
pub fn preview_text(text: &str) -> (r: String)
    requires
        text.len() > PREVIEW_LIMIT ==> vstd::utf8::is_char_boundary(text.spec_bytes(), PREVIEW_LIMIT as int),
    ensures
        text.len() <= PREVIEW_LIMIT ==> r@ == text@,
        text.len() > PREVIEW_LIMIT ==> vstd::utf8::encode_utf8(r@) == text.spec_bytes().take(PREVIEW_LIMIT as int) + vstd::utf8::encode_utf8("\n\u{2026}"@),
{
    if text.len() > PREVIEW_LIMIT {
        let (head, _) = text.split_at(PREVIEW_LIMIT);
        let mut s = owned(head);
        push_str(&mut s, "\n\u{2026}");
        proof {
            lemma_encode_concat(head@, "\n\u{2026}"@);
        }
        s
    } else {
        owned(text)
    }
}

/// The line under a file's preview: its kind and size.
pub fn binary_message(kind: &str, size: u64) -> (r: String)
    ensures
        r@ == kind@ + " file \u{b7} "@ + size_text(size),
{
    let mut s = owned(kind);
    push_str(&mut s, " file \u{b7} ");
    let t = fmt_size(size);
    push_str(&mut s, t.as_str());
    s
}

/// The line under a directory's preview: how many items it holds.
pub fn directory_message(item_count: usize) -> (r: String)
    ensures
        r@ == decimal(item_count as nat) + " items"@,
{
    let mut s = String::new();
    push_decimal(&mut s, item_count as u64);
    push_str(&mut s, " items");
    s
}

/// The values the properties window shows besides the raw properties.
#[derive(Debug)]
pub struct PropsView {
    pub icon: &'static str,
    pub icon_color: u32,
    pub size: String,
    pub items: String,
    pub readonly: &'static str,
}

/// What the properties window shows for `p`: a folder icon for a
/// directory, an em dash for a missing size or item count.
pub fn props_view(p: &crate::ops::Properties) -> (r: PropsView)
    ensures
        r.icon@ == if p.kind@ == "Directory"@ { ICO_FOLDER@ } else { icon_for(lower_ext(p.name@)) },
        r.icon_color == if p.kind@ == "Directory"@ { COL_DIR } else { COL_FILE },
        r.size@ == if p.size@.len() == 0 { seq!['\u{2014}'] } else { p.size@ },
        r.items@ == match p.item_count { Some(n) => decimal(n as nat), None => seq!['\u{2014}'] },
        r.readonly@ == if p.readonly { "Yes"@ } else { "No"@ },
{
    let is_dir = owned(p.kind) == owned("Directory");
    let mut dash = String::new();
    dash.push('\u{2014}');
    PropsView {
        icon: if is_dir { ICO_FOLDER } else { file_icon(p.name.as_str()) },
        icon_color: if is_dir { COL_DIR } else { COL_FILE },
        size: if p.size.as_str().is_empty() { dash.clone() } else { p.size.clone() },
        items: match p.item_count {
            Some(n) => {
                let mut s = String::new();
                push_decimal(&mut s, n as u64);
                s
            },
            None => dash,
        },
        readonly: if p.readonly { "Yes" } else { "No" },
    }
}

/// A text takes at least one UTF-8 byte per character.
proof fn lemma_bytes_at_least_chars(c: Seq<char>)
    ensures
        vstd::utf8::encode_utf8(c).len() >= c.len(),
    decreases c.len(),
{
    if c.len() > 0 {
        lemma_bytes_at_least_chars(c.drop_first());
    }
}

/// A text takes at most four UTF-8 bytes per character.
proof fn lemma_bytes_at_most_four(c: Seq<char>)
    ensures
        vstd::utf8::encode_utf8(c).len() <= 4 * c.len(),
    decreases c.len(),
{
    if c.len() > 0 {
        lemma_bytes_at_most_four(c.drop_first());
    }
}

/// Law: in a dialog's text field every key whose text is one byte long
/// (any letter, digit or sign such as `.`, `-` or `_`) is typed: it is an
/// insertion, and the text becomes the old text followed by the key.
pub proof fn law_one_byte_key_is_typed(key: &str, t: Seq<char>)
    requires
        key.spec_bytes().len() == 1,
    ensures
        key_edit(key) == KeyEdit::Insert,
        edited(t, key) == t + key@,
{
    lemma_bytes_at_least_chars(key@);
    reveal_strlit("enter");
    reveal_strlit("escape");
    assert(key@.len() <= 1);
    assert(key@ != "enter"@);
    assert(key@ != "escape"@);
}

/// Law: Enter submits and Escape cancels a dialog, leaving its text as
/// it is; Backspace erases the last character (nothing when the text is
/// empty).
pub proof fn law_dialog_keys(key: &str, t: Seq<char>)
    ensures
        key@ == "enter"@ ==> key_edit(key) == KeyEdit::Submit && edited(t, key) == t,
        key@ == "escape"@ ==> key_edit(key) == KeyEdit::Cancel && edited(t, key) == t,
        key@ == "backspace"@ ==> key_edit(key) == KeyEdit::Erase && edited(t, key) == (if t.len() > 0 {
            t.drop_last()
        } else {
            t
        }),
{
    reveal_strlit("enter");
    reveal_strlit("escape");
    reveal_strlit("backspace");
    if key@ == "escape"@ {
        assert(key@.len() == 6);
        assert("enter"@.len() == 5);
        assert(key@ != "enter"@);
    }
    if key@ == "backspace"@ {
        lemma_bytes_at_least_chars(key@);
        lemma_bytes_at_most_four(key@);
        assert(key@.len() == 9);
        assert(9 <= key.spec_bytes().len() <= 36);
        assert(key@ != "enter"@);
        assert(key@ != "escape"@);
        assert(key.len() != 1);
    }
}

} // verus!

//! The states the explorer's window can be in.

use vstd::prelude::*;
use crate::archive::ZipEntry;
use crate::context_menu::{ContextTarget, MenuItem};

verus! {

/// Where the explorer is looking: a directory, or a directory inside an archive.
#[derive(Debug)]
pub enum ViewLocation {
    FileSystem(String),
    ZipArchive { zip_path: String, inner_dir: String },
}

impl Clone for ViewLocation {
    fn clone(&self) -> (r: Self)
        ensures
            r == *self,
    {
        match self {
            ViewLocation::FileSystem(p) => ViewLocation::FileSystem(p.clone()),
            ViewLocation::ZipArchive { zip_path, inner_dir } => ViewLocation::ZipArchive {
                zip_path: zip_path.clone(),
                inner_dir: inner_dir.clone(),
            },
        }
    }
}

impl ViewLocation {
    /// Whether this location is inside an archive.
    pub fn is_zip(&self) -> (r: bool)
        ensures
            r == (*self is ZipArchive),
    {
        matches!(self, ViewLocation::ZipArchive { .. })
    }
}

/// A dialog over the file list.
#[derive(Debug)]
pub enum Modal {
    Rename { path: String, name: String },
    ConfirmDelete { path: String },
    NewItem { parent: String, name: String, is_dir: bool },
    ExtractZip { zip_path: String, dest: String },
    Toast(String),
}

impl Clone for Modal {
    fn clone(&self) -> (r: Self)
        ensures
            r == *self,
    {
        match self {
            Modal::Rename { path, name } => Modal::Rename { path: path.clone(), name: name.clone() },
            Modal::ConfirmDelete { path } => Modal::ConfirmDelete { path: path.clone() },
            Modal::NewItem { parent, name, is_dir } => Modal::NewItem {
                parent: parent.clone(),
                name: name.clone(),
                is_dir: *is_dir,
            },
            Modal::ExtractZip { zip_path, dest } => Modal::ExtractZip {
                zip_path: zip_path.clone(),
                dest: dest.clone(),
            },
            Modal::Toast(m) => Modal::Toast(m.clone()),
        }
    }
}

/// An open context menu: what it is for and its lines. (Where it is drawn
/// is the window's business.)
#[derive(Debug)]
pub struct ContextMenu {
    pub target: ContextTarget,
    pub items: Vec<MenuItem>,
}

/// The menus of the menu bar.
#[derive(Clone, Copy, Debug, PartialEq, Eq, Structural)]
pub enum MenuBarMenu {
    File,
    View,
    Help,
}

/// What a menu-bar item does.
#[derive(Clone, Copy, Debug, PartialEq, Eq, Structural)]
pub enum MenuBarAction {
    NewFolder,
    NewFile,
    Refresh,
    ToggleHidden,
    ToggleSidebar,
    TogglePreview,
    About,
    Quit,
}

/// What the preview pane shows for the selected item.
#[derive(Debug)]
pub enum PreviewContent {
    Text(String),
    Binary { size: u64, kind: &'static str },
    Directory { item_count: usize },
}

impl Clone for PreviewContent {
    fn clone(&self) -> (r: Self)
        ensures
            r == *self,
    {
        match self {
            PreviewContent::Text(t) => PreviewContent::Text(t.clone()),
            PreviewContent::Binary { size, kind } => PreviewContent::Binary { size: *size, kind: *kind },
            PreviewContent::Directory { item_count } => PreviewContent::Directory { item_count: *item_count },
        }
    }
}

/// An archive being browsed: which one, which directory of it, and the
/// items of that directory.
#[derive(Debug)]
pub struct ZipView {
    pub zip_path: String,
    pub inner_dir: String,
    pub entries: Vec<ZipEntry>,
}

} // verus!

//! The right-click menu: what was clicked, and which actions it offers.

use vstd::prelude::*;
use crate::paths::{extension, extension_of};

verus! {

/// What a context menu was opened on.
#[derive(Debug)]
pub enum ContextTarget {
    Directory(String),
    File(String),
    Background { current_dir: String },
    Drive(String),
}

impl Clone for ContextTarget {
    fn clone(&self) -> (r: Self)
        ensures
            r == *self,
    {
        match self {
            ContextTarget::Directory(p) => ContextTarget::Directory(p.clone()),
            ContextTarget::File(p) => ContextTarget::File(p.clone()),
            ContextTarget::Background { current_dir } => ContextTarget::Background {
                current_dir: current_dir.clone(),
            },
            ContextTarget::Drive(p) => ContextTarget::Drive(p.clone()),
        }
    }
}

/// The path a target stands for (for the background, the directory shown).
pub open spec fn target_path(t: ContextTarget) -> String {
    match t {
        ContextTarget::Directory(p) => p,
        ContextTarget::File(p) => p,
        ContextTarget::Background { current_dir } => current_dir,
        ContextTarget::Drive(p) => p,
    }
}

impl ContextTarget {
    /// The path of the target; every target has one.
    pub fn path(&self) -> (r: Option<&String>)
        ensures
            r == Some(&target_path(*self)),
    {
        match self {
            ContextTarget::File(p) | ContextTarget::Directory(p) | ContextTarget::Drive(p) => Some(p),
            ContextTarget::Background { current_dir } => Some(current_dir),
        }
    }
}

/// One line of a context menu.
#[derive(Clone, Copy, Debug, PartialEq, Eq, Structural)]
pub enum MenuItem {
    Action(MenuAction),
    Separator,
}

/// What a context-menu line does.
#[derive(Clone, Copy, Debug, PartialEq, Eq, Structural)]
pub enum MenuAction {
    Open,
    OpenInExplorer,
    BrowseZip,
    ExtractHere,
    CopyPath,
    CopyName,
    NavigateTo,
    Refresh,
    NewFolder,
    NewFile,
    Rename,
    Delete,
    Properties,
}

/// The label shown for an action.
pub open spec fn action_label(a: MenuAction) -> Seq<char> {
    match a {
        MenuAction::Open => "Open"@,
        MenuAction::OpenInExplorer => "Show in explorer"@,
        MenuAction::BrowseZip => "Browse archive"@,
        MenuAction::ExtractHere => "Extract here"@,
        MenuAction::CopyPath => "Copy path"@,
        MenuAction::CopyName => "Copy name"@,
        MenuAction::NavigateTo => "Navigate here"@,
        MenuAction::Refresh => "Refresh"@,
        MenuAction::NewFolder => "New folder"@,
        MenuAction::NewFile => "New file"@,
        MenuAction::Rename => "Rename"@,
        MenuAction::Delete => "Delete"@,
        MenuAction::Properties => "Properties"@,
    }
}

/// The icon glyph (with a trailing space) shown for an action.
pub open spec fn action_icon(a: MenuAction) -> Seq<char> {
    match a {
        MenuAction::Open => "\u{f115} "@,
        MenuAction::OpenInExplorer => "\u{f07c} "@,
        MenuAction::BrowseZip => "\u{f53b} "@,
        MenuAction::ExtractHere => "\u{f56f} "@,
        MenuAction::CopyPath => "\u{f0c5} "@,
        MenuAction::CopyName => "\u{f02b} "@,
        MenuAction::NavigateTo => "\u{f061} "@,
        MenuAction::Refresh => "\u{f021} "@,
        MenuAction::NewFolder => "\u{f65b} "@,
        MenuAction::NewFile => "\u{f15c} "@,
        MenuAction::Rename => "\u{f044} "@,
        MenuAction::Delete => "\u{f1f8} "@,
        MenuAction::Properties => "\u{f05a} "@,
    }
}

impl MenuAction {
    /// Whether the line is drawn as dangerous: only Delete is.
    pub fn is_dangerous(&self) -> (r: bool)
        ensures
            r == (*self == MenuAction::Delete),
    {
        *self == MenuAction::Delete
    }

    pub fn label(&self) -> (r: &'static str)
        ensures
            r@ == action_label(*self),
    {
        match self {
            MenuAction::Open => "Open",
            MenuAction::OpenInExplorer => "Show in explorer",
            MenuAction::BrowseZip => "Browse archive",
            MenuAction::ExtractHere => "Extract here",
            MenuAction::CopyPath => "Copy path",
            MenuAction::CopyName => "Copy name",
            MenuAction::NavigateTo => "Navigate here",
            MenuAction::Refresh => "Refresh",
            MenuAction::NewFolder => "New folder",
            MenuAction::NewFile => "New file",
            MenuAction::Rename => "Rename",
            MenuAction::Delete => "Delete",
            MenuAction::Properties => "Properties",
        }
    }

    pub fn icon(&self) -> (r: &'static str)
        ensures
            r@ == action_icon(*self),
    {
        match self {
            MenuAction::Open => "\u{f115} ",
            MenuAction::OpenInExplorer => "\u{f07c} ",
            MenuAction::BrowseZip => "\u{f53b} ",
            MenuAction::ExtractHere => "\u{f56f} ",
            MenuAction::CopyPath => "\u{f0c5} ",
            MenuAction::CopyName => "\u{f02b} ",
            MenuAction::NavigateTo => "\u{f061} ",
            MenuAction::Refresh => "\u{f021} ",
            MenuAction::NewFolder => "\u{f65b} ",
            MenuAction::NewFile => "\u{f15c} ",
            MenuAction::Rename => "\u{f044} ",
            MenuAction::Delete => "\u{f1f8} ",
            MenuAction::Properties => "\u{f05a} ",
        }
    }
}

/// `e` is `zip` in any mix of ASCII case.
pub open spec fn is_zip_ext(e: Seq<char>) -> bool {
    &&& e.len() == 3
    &&& (e[0] == 'z' || e[0] == 'Z')
    &&& (e[1] == 'i' || e[1] == 'I')
    &&& (e[2] == 'p' || e[2] == 'P')
}

/// The path's extension is `zip`, ignoring ASCII case.
pub open spec fn has_zip_extension(p: Seq<char>) -> bool {
    extension_of(p) matches Some(e) && is_zip_ext(e)
}

/// Whether the extension of `p` is `zip` (ASCII case ignored).
pub fn is_zip_path(p: &str) -> (r: bool)
    ensures
        r == has_zip_extension(p@),
{
    match extension(p) {
        None => false,
        Some(e) => {
            let v = crate::text::chars_of(e.as_str());
            v.len() == 3 && (v[0] == 'z' || v[0] == 'Z') && (v[1] == 'i' || v[1] == 'I') && (
            v[2] == 'p' || v[2] == 'P')
        },
    }
}

/// The menu offered for a target.
pub open spec fn menu_for(t: ContextTarget) -> Seq<MenuItem> {
    let a = |x: MenuAction| MenuItem::Action(x);
    match t {
        ContextTarget::File(p) => seq![a(MenuAction::Open), a(MenuAction::OpenInExplorer)] + (if has_zip_extension(p@) {
            seq![MenuItem::Separator, a(MenuAction::BrowseZip), a(MenuAction::ExtractHere)]
        } else {
            Seq::empty()
        }) + seq![
            MenuItem::Separator,
            a(MenuAction::CopyPath),
            a(MenuAction::CopyName),
            MenuItem::Separator,
            a(MenuAction::Rename),
            a(MenuAction::Delete),
            MenuItem::Separator,
            a(MenuAction::Properties),
        ],
        ContextTarget::Directory(_) => seq![
            a(MenuAction::NavigateTo),
            a(MenuAction::Open),
            MenuItem::Separator,
            a(MenuAction::CopyPath),
            a(MenuAction::CopyName),
            MenuItem::Separator,
            a(MenuAction::Rename),
            a(MenuAction::Delete),
            MenuItem::Separator,
            a(MenuAction::Properties),
        ],
        ContextTarget::Background { .. } => seq![
            a(MenuAction::Refresh),
            MenuItem::Separator,
            a(MenuAction::NewFolder),
            a(MenuAction::NewFile),
            MenuItem::Separator,
            a(MenuAction::Properties),
        ],
        ContextTarget::Drive(_) => seq![
            a(MenuAction::NavigateTo),
            MenuItem::Separator,
            a(MenuAction::Refresh),
            MenuItem::Separator,
            a(MenuAction::Properties),
        ],
    }
}

/// The context menu for a target.
pub fn items_for(target: &ContextTarget) -> (r: Vec<MenuItem>)
    ensures
        r@ == menu_for(*target),
{
    match target {
        ContextTarget::File(p) => {
            let is_zip = is_zip_path(p.as_str());
            let mut items = vec![
                MenuItem::Action(MenuAction::Open),
                MenuItem::Action(MenuAction::OpenInExplorer),
            ];
            if is_zip {
                items.push(MenuItem::Separator);
                items.push(MenuItem::Action(MenuAction::BrowseZip));
                items.push(MenuItem::Action(MenuAction::ExtractHere));
            }
            items.push(MenuItem::Separator);
            items.push(MenuItem::Action(MenuAction::CopyPath));
            items.push(MenuItem::Action(MenuAction::CopyName));
            items.push(MenuItem::Separator);
            items.push(MenuItem::Action(MenuAction::Rename));
            items.push(MenuItem::Action(MenuAction::Delete));
            items.push(MenuItem::Separator);
            items.push(MenuItem::Action(MenuAction::Properties));
            items
        },
        ContextTarget::Directory(_) => vec![
            MenuItem::Action(MenuAction::NavigateTo),
            MenuItem::Action(MenuAction::Open),
            MenuItem::Separator,
            MenuItem::Action(MenuAction::CopyPath),
            MenuItem::Action(MenuAction::CopyName),
            MenuItem::Separator,
            MenuItem::Action(MenuAction::Rename),
            MenuItem::Action(MenuAction::Delete),
            MenuItem::Separator,
            MenuItem::Action(MenuAction::Properties),
        ],
        ContextTarget::Background { .. } => vec![
            MenuItem::Action(MenuAction::Refresh),
            MenuItem::Separator,
            MenuItem::Action(MenuAction::NewFolder),
            MenuItem::Action(MenuAction::NewFile),
            MenuItem::Separator,
            MenuItem::Action(MenuAction::Properties),
        ],
        ContextTarget::Drive(_) => vec![
            MenuItem::Action(MenuAction::NavigateTo),
            MenuItem::Separator,
            MenuItem::Action(MenuAction::Refresh),
            MenuItem::Separator,
            MenuItem::Action(MenuAction::Properties),
        ],
    }
}

/// Law: every context menu starts with an action, ends with Properties,
/// and never shows two separators in a row.
pub proof fn law_menu_shape(t: ContextTarget)
    ensures
        menu_for(t).len() > 0,
        menu_for(t)[0] is Action,
        menu_for(t).last() == MenuItem::Action(MenuAction::Properties),
        forall|k: int| 0 <= k < menu_for(t).len() - 1 ==> !(#[trigger] menu_for(t)[k] is Separator && menu_for(t)[k + 1] is Separator),
{
    let m = menu_for(t);
    match t {
        ContextTarget::File(p) => {
            if has_zip_extension(p@) {
                assert(m.len() == 13);
            } else {
                assert(m.len() == 10);
            }
        },
        _ => {},
    }
}

/// Law: a file's menu offers browsing and extracting exactly when its
/// extension is `zip` (in any ASCII case).
pub proof fn law_zip_actions_only_for_archives(p: String)
    ensures
        menu_for(ContextTarget::File(p)).contains(MenuItem::Action(MenuAction::BrowseZip)) <==> has_zip_extension(p@),
        menu_for(ContextTarget::File(p)).contains(MenuItem::Action(MenuAction::ExtractHere)) <==> has_zip_extension(p@),
{
    let m = menu_for(ContextTarget::File(p));
    if has_zip_extension(p@) {
        assert(m[3] == MenuItem::Action(MenuAction::BrowseZip));
        assert(m[4] == MenuItem::Action(MenuAction::ExtractHere));
    } else {
        assert(m.len() == 10);
        assert(!m.contains(MenuItem::Action(MenuAction::BrowseZip))) by {
            if m.contains(MenuItem::Action(MenuAction::BrowseZip)) {
                let k = choose|k: int| 0 <= k < m.len() && m[k] == MenuItem::Action(MenuAction::BrowseZip);
                assert(k < 10);
            }
        }
        assert(!m.contains(MenuItem::Action(MenuAction::ExtractHere))) by {
            if m.contains(MenuItem::Action(MenuAction::ExtractHere)) {
                let k = choose|k: int| 0 <= k < m.len() && m[k] == MenuItem::Action(MenuAction::ExtractHere);
                assert(k < 10);
            }
        }
    }
}

/// The menu of a file whose extension is not `zip`.
pub open spec fn plain_file_menu() -> Seq<MenuItem> {
    seq![
        MenuItem::Action(MenuAction::Open),
        MenuItem::Action(MenuAction::OpenInExplorer),
        MenuItem::Separator,
        MenuItem::Action(MenuAction::CopyPath),
        MenuItem::Action(MenuAction::CopyName),
        MenuItem::Separator,
        MenuItem::Action(MenuAction::Rename),
        MenuItem::Action(MenuAction::Delete),
        MenuItem::Separator,
        MenuItem::Action(MenuAction::Properties),
    ]
}

/// Law: a menu depends only on the kind of target, and for a file only on
/// whether its extension is `zip`: a plain file gets the plain file menu,
/// an archive the same menu with a separator, Browse and Extract inserted
/// after its first two lines.
pub proof fn law_menu_by_kind(p: String, q: String)
    ensures
        menu_for(ContextTarget::Directory(p)) == menu_for(ContextTarget::Directory(q)),
        menu_for(ContextTarget::Drive(p)) == menu_for(ContextTarget::Drive(q)),
        menu_for(ContextTarget::Background { current_dir: p }) == menu_for(ContextTarget::Background { current_dir: q }),
        has_zip_extension(p@) == has_zip_extension(q@) ==> menu_for(ContextTarget::File(p)) == menu_for(ContextTarget::File(q)),
        menu_for(ContextTarget::File(p)) == if has_zip_extension(p@) {
            plain_file_menu().take(2) + seq![
                MenuItem::Separator,
                MenuItem::Action(MenuAction::BrowseZip),
                MenuItem::Action(MenuAction::ExtractHere),
            ] + plain_file_menu().skip(2)
        } else {
            plain_file_menu()
        },
{
    let base = plain_file_menu();
    let m = menu_for(ContextTarget::File(p));
    if has_zip_extension(p@) {
        assert(m =~= base.take(2) + seq![
            MenuItem::Separator,
            MenuItem::Action(MenuAction::BrowseZip),
            MenuItem::Action(MenuAction::ExtractHere),
        ] + base.skip(2));
    } else {
        assert(m =~= base);
    }
    let n = menu_for(ContextTarget::File(q));
    if has_zip_extension(q@) {
        assert(n =~= base.take(2) + seq![
            MenuItem::Separator,
            MenuItem::Action(MenuAction::BrowseZip),
            MenuItem::Action(MenuAction::ExtractHere),
        ] + base.skip(2));
    } else {
        assert(n =~= base);
    }
    assert(menu_for(ContextTarget::Directory(p)) =~= menu_for(ContextTarget::Directory(q)));
    assert(menu_for(ContextTarget::Drive(p)) =~= menu_for(ContextTarget::Drive(q)));
    assert(menu_for(ContextTarget::Background { current_dir: p }) =~= menu_for(ContextTarget::Background { current_dir: q }));
}

/// Law: the menus offered, line by line. Every directory gets Navigate
/// here, Open, Copy path, Copy name, Rename, Delete and Properties; every
/// drive Navigate here, Refresh and Properties; the
/// background Refresh, New folder, New file and Properties; every file
/// Open, Show in explorer, Copy path, Copy name, Rename, Delete and
/// Properties (and Browse and Extract for a zip).
pub proof fn law_menu_lines(p: String)
    ensures
        menu_for(ContextTarget::Directory(p)) == seq![
            MenuItem::Action(MenuAction::NavigateTo),
            MenuItem::Action(MenuAction::Open),
            MenuItem::Separator,
            MenuItem::Action(MenuAction::CopyPath),
            MenuItem::Action(MenuAction::CopyName),
            MenuItem::Separator,
            MenuItem::Action(MenuAction::Rename),
            MenuItem::Action(MenuAction::Delete),
            MenuItem::Separator,
            MenuItem::Action(MenuAction::Properties),
        ],
        menu_for(ContextTarget::Drive(p)) == seq![
            MenuItem::Action(MenuAction::NavigateTo),
            MenuItem::Separator,
            MenuItem::Action(MenuAction::Refresh),
            MenuItem::Separator,
            MenuItem::Action(MenuAction::Properties),
        ],
        menu_for(ContextTarget::Background { current_dir: p }) == seq![
            MenuItem::Action(MenuAction::Refresh),
            MenuItem::Separator,
            MenuItem::Action(MenuAction::NewFolder),
            MenuItem::Action(MenuAction::NewFile),
            MenuItem::Separator,
            MenuItem::Action(MenuAction::Properties),
        ],
        menu_for(ContextTarget::File(p)) == seq![
            MenuItem::Action(MenuAction::Open),
            MenuItem::Action(MenuAction::OpenInExplorer),
        ] + (if has_zip_extension(p@) {
            seq![
                MenuItem::Separator,
                MenuItem::Action(MenuAction::BrowseZip),
                MenuItem::Action(MenuAction::ExtractHere),
            ]
        } else {
            Seq::empty()
        }) + seq![
            MenuItem::Separator,
            MenuItem::Action(MenuAction::CopyPath),
            MenuItem::Action(MenuAction::CopyName),
            MenuItem::Separator,
            MenuItem::Action(MenuAction::Rename),
            MenuItem::Action(MenuAction::Delete),
            MenuItem::Separator,
            MenuItem::Action(MenuAction::Properties),
        ],
{
    assert(menu_for(ContextTarget::Directory(p)) =~= seq![
        MenuItem::Action(MenuAction::NavigateTo),
        MenuItem::Action(MenuAction::Open),
        MenuItem::Separator,
        MenuItem::Action(MenuAction::CopyPath),
        MenuItem::Action(MenuAction::CopyName),
        MenuItem::Separator,
        MenuItem::Action(MenuAction::Rename),
        MenuItem::Action(MenuAction::Delete),
        MenuItem::Separator,
        MenuItem::Action(MenuAction::Properties),
    ]);
    assert(menu_for(ContextTarget::Drive(p)) =~= seq![
        MenuItem::Action(MenuAction::NavigateTo),
        MenuItem::Separator,
        MenuItem::Action(MenuAction::Refresh),
        MenuItem::Separator,
        MenuItem::Action(MenuAction::Properties),
    ]);
    assert(menu_for(ContextTarget::Background { current_dir: p }) =~= seq![
        MenuItem::Action(MenuAction::Refresh),
        MenuItem::Separator,
        MenuItem::Action(MenuAction::NewFolder),
        MenuItem::Action(MenuAction::NewFile),
        MenuItem::Separator,
        MenuItem::Action(MenuAction::Properties),
    ]);
}

} // verus!

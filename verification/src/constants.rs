//! Glyphs (Nerd Font code points, each followed by a space where it
//! prefixes a label) and colours (0xRRGGBB) of the explorer's look.

use vstd::prelude::*;

verus! {

/// The application's name and version, as the About message gives them.
pub const PKG_NAME: &'static str = "explorer";
pub const PKG_VERSION: &'static str = "0.1.0";

pub const ICO_FOLDER: &'static str = "\u{f07b}";
pub const ICO_FILE: &'static str = "\u{f15b}";
pub const ICO_DRIVE: &'static str = "\u{f0a0}";
pub const ICO_BACK: &'static str = "\u{f060}";
pub const ICO_UP: &'static str = "\u{f062}";
pub const ICO_WARN: &'static str = "\u{f071}";
pub const ICO_CHECK: &'static str = "\u{f00c}";
pub const ICO_RENAME: &'static str = "\u{f044}";
pub const ICO_DELETE: &'static str = "\u{f1f8}";
pub const ICO_EXTRACT: &'static str = "\u{f56e}";
pub const ICO_CHECK_BOX: &'static str = "\u{f14a}";
pub const ICO_CHECK_BOX_BLANK: &'static str = "\u{f096}";
pub const ICO_NEW_FOLDER: &'static str = "\u{eec7} ";
pub const ICO_NEW_FILE: &'static str = "\u{ea7f} ";
pub const ICO_REFRESH: &'static str = "\u{e348} ";
pub const ICO_EYE: &'static str = "\u{ea70} ";
pub const ICO_EYE_SLASH: &'static str = "\u{eae7} ";
pub const ICO_INFO: &'static str = "\u{ea74} ";
pub const ICO_QUIT: &'static str = "\u{f52f} ";
pub const ICO_SIDEBAR_OPEN: &'static str = "\u{f152} ";
pub const ICO_SIDEBAR_CLOSE: &'static str = "\u{f191} ";
pub const ICO_PREVIEW_TOGGLE: &'static str = "\u{eb28} ";
pub const ICO_HOME: &'static str = "\u{f015} ";
pub const ICO_DESKTOP: &'static str = "\u{f108} ";
pub const ICO_DOWNLOADS: &'static str = "\u{f409} ";
pub const ICO_DOCUMENTS: &'static str = "\u{f0219} ";
pub const ICO_PICTURES: &'static str = "\u{f03e} ";
pub const ICO_MUSIC: &'static str = "\u{f075a} ";
pub const ICO_VIDEOS: &'static str = "\u{f52c} ";
pub const ICO_ARROW_RIGHT: &'static str = "\u{ea9c} ";
pub const ICO_ARROW_DOWN: &'static str = "\u{ea9a} ";
pub const ICO_BIN: &'static str = "\u{eae8} ";
pub const ICO_CODE: &'static str = "\u{f0169} ";
pub const ICO_IMG: &'static str = "\u{f02e9} ";
pub const ICO_ARCHIVE: &'static str = "\u{f003c} ";
pub const ICO_PDF: &'static str = "\u{f0226} ";

pub const BG_TOOLBAR: u32 = 0x1E1E2E;
pub const BG_SIDEBAR: u32 = 0x181825;
pub const BG_MAIN: u32 = 0x11111B;
pub const BG_ROW_HOVER: u32 = 0x313244;
pub const BG_ROW_SEL: u32 = 0x45475A;
pub const BG_SELECTION_BAR: u32 = 0x2A2B3C;
pub const COL_BORDER: u32 = 0x313244;
pub const COL_TEXT: u32 = 0xCDD6F4;
pub const COL_MUTED: u32 = 0x6C7086;
pub const COL_DIR: u32 = 0x89B4FA;
pub const COL_FILE: u32 = 0xA6E3A1;
pub const COL_ZIP: u32 = 0xF9E2AF;
pub const COL_ACCENT: u32 = 0xCBA6F7;
pub const BG_MENU: u32 = 0x24273A;
pub const BG_MENU_HOVER: u32 = 0x363A4F;
pub const COL_SEP: u32 = 0x494D64;
pub const COL_DANGER: u32 = 0xED8796;
pub const BG_MODAL: u32 = 0x1E1E2E;
pub const BG_INPUT: u32 = 0x11111B;
pub const COL_SUCCESS: u32 = 0xA6E3A1;
pub const COL_BTN_DEL: u32 = 0xF38BA8;
pub const BG_BTN_DEL: u32 = 0x45002A;
pub const BG_BTN_OK: u32 = 0x003020;
pub const COL_BTN_OK: u32 = 0xA6E3A1;
pub const BG_BACKDROP: u32 = 0x00000088;
pub const BG_PREVIEW: u32 = 0x13131F;
pub const COL_PROPS_KEY: u32 = 0x89DCEB;
pub const COL_SECTION: u32 = 0x585B70;

} // verus!

//! The icons of the interface, each a character of the icon font.

use vstd::prelude::*;

verus! {

/// The font that holds the icons.
pub const FONT_FAMILY: &'static str = "Hugeicons Stroke Rounded";

/// An icon.
#[derive(Clone, Copy, Debug, PartialEq, Eq, Structural)]
pub enum IconName {
    Add,
    AlertCircle,
    Appearance,
    AppWindow,
    ArrowDown,
    ArrowRight,
    ArrowUp,
    Browser,
    CheckmarkCircle,
    Close,
    CombineIcon,
    Copy,
    Download,
    File,
    Finder,
    Folder,
    FolderOpen,
    GitBranch,
    Info,
    Keyboard,
    PanelLeftClose,
    PanelLeftOpen,
    PanelRightClose,
    PanelRightOpen,
    Refresh,
    Search,
    Settings,
    Terminal,
    VsCode,
}

/// The character of an icon.
pub open spec fn glyph_of(icon: IconName) -> char {
    match icon {
        IconName::Add => '\u{F150C}',
        IconName::AlertCircle => '\u{F14EB}',
        IconName::Appearance => '\u{F1A23}',
        IconName::AppWindow => '\u{F1FB0}',
        IconName::ArrowDown => '\u{F15FC}',
        IconName::ArrowRight => '\u{F1623}',
        IconName::ArrowUp => '\u{F1632}',
        IconName::Browser => '\u{F17C8}',
        IconName::CheckmarkCircle => '\u{F1970}',
        IconName::Close => '\u{F18BC}',
        IconName::CombineIcon => '\u{F1A28}',
        IconName::Copy => '\u{F1A75}',
        IconName::Download => '\u{F1BBA}',
        IconName::File => '\u{F1C6A}',
        IconName::Finder => '\u{F15D1}',
        IconName::Folder => '\u{F1D01}',
        IconName::FolderOpen => '\u{F1D02}',
        IconName::GitBranch => '\u{F1D6B}',
        IconName::Info => '\u{F1E70}',
        IconName::Keyboard => '\u{F1F02}',
        IconName::PanelLeftClose => '\u{F22AE}',
        IconName::PanelLeftOpen => '\u{F22B0}',
        IconName::PanelRightClose => '\u{F22B2}',
        IconName::PanelRightOpen => '\u{F22B4}',
        IconName::Refresh => '\u{F2449}',
        IconName::Search => '\u{F2546}',
        IconName::Settings => '\u{F257F}',
        IconName::Terminal => '\u{F1836}',
        IconName::VsCode => '\u{F297B}',
    }
}

impl IconName {
    /// The character of the icon.
    pub fn glyph(self) -> (r: char)
        ensures
            r == glyph_of(self),
    {
        match self {
            IconName::Add => '\u{F150C}',
            IconName::AlertCircle => '\u{F14EB}',
            IconName::Appearance => '\u{F1A23}',
            IconName::AppWindow => '\u{F1FB0}',
            IconName::ArrowDown => '\u{F15FC}',
            IconName::ArrowRight => '\u{F1623}',
            IconName::ArrowUp => '\u{F1632}',
            IconName::Browser => '\u{F17C8}',
            IconName::CheckmarkCircle => '\u{F1970}',
            IconName::Close => '\u{F18BC}',
            IconName::CombineIcon => '\u{F1A28}',
            IconName::Copy => '\u{F1A75}',
            IconName::Download => '\u{F1BBA}',
            IconName::File => '\u{F1C6A}',
            IconName::Finder => '\u{F15D1}',
            IconName::Folder => '\u{F1D01}',
            IconName::FolderOpen => '\u{F1D02}',
            IconName::GitBranch => '\u{F1D6B}',
            IconName::Info => '\u{F1E70}',
            IconName::Keyboard => '\u{F1F02}',
            IconName::PanelLeftClose => '\u{F22AE}',
            IconName::PanelLeftOpen => '\u{F22B0}',
            IconName::PanelRightClose => '\u{F22B2}',
            IconName::PanelRightOpen => '\u{F22B4}',
            IconName::Refresh => '\u{F2449}',
            IconName::Search => '\u{F2546}',
            IconName::Settings => '\u{F257F}',
            IconName::Terminal => '\u{F1836}',
            IconName::VsCode => '\u{F297B}',
        }
    }
}

/// Two icons do not look the same.
pub proof fn icons_differ(a: IconName, b: IconName)
    requires
        a != b,
    ensures
        glyph_of(a) != glyph_of(b),
{
}

} // verus!

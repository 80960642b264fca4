//! Names of the interface icons and where their SVG assets live.

use vstd::prelude::*;
use vstd::string::*;
use crate::text::{replace_all, replace_str};

verus! {

#[derive(Debug, Clone, Copy, PartialEq, Eq, Structural)]
pub enum IconName {
    Check,
    ChevronLeft,
    ChevronRight,
    Close,
    Copy,
    CopyDone,
    Delete,
    Download,
    Edit,
    Folder,
    Github,
    Globe,
    Key,
    Monitor,
    Moon,
    MoreVertical,
    Power,
    QuickRoutes,
    Server,
    SettingsBack,
    SettingsPlaceholder,
    SignOut,
    SidebarToggle,
    SidebarToggleFilled,
    Sun,
    TutorialHelp,
}

/// Path of the SVG asset of an icon.
pub open spec fn icon_path(name: IconName) -> Seq<char> {
    match name {
        IconName::Check => "assets/images/svg/icons/check.svg"@,
        IconName::ChevronLeft => "assets/images/svg/icons/chevron-left.svg"@,
        IconName::ChevronRight => "assets/images/svg/icons/chevron-right.svg"@,
        IconName::Close => "assets/images/svg/icons/close.svg"@,
        IconName::Copy => "assets/images/svg/icons/copy.svg"@,
        IconName::CopyDone => "assets/images/svg/icons/copy-done.svg"@,
        IconName::Delete => "assets/images/svg/icons/delete.svg"@,
        IconName::Download => "assets/images/svg/icons/download.svg"@,
        IconName::Edit => "assets/images/svg/icons/edit.svg"@,
        IconName::Folder => "assets/images/svg/icons/folder.svg"@,
        IconName::Github => "assets/images/svg/icons/github.svg"@,
        IconName::Globe => "assets/images/svg/icons/globe.svg"@,
        IconName::Key => "assets/images/svg/icons/key.svg"@,
        IconName::Monitor => "assets/images/svg/icons/monitor.svg"@,
        IconName::Moon => "assets/images/svg/icons/moon.svg"@,
        IconName::MoreVertical => "assets/images/svg/icons/more-vertical.svg"@,
        IconName::Power => "assets/images/svg/icons/power.svg"@,
        IconName::QuickRoutes => "assets/images/svg/icons/quick-routes.svg"@,
        IconName::Server => "assets/images/svg/icons/server.svg"@,
        IconName::SettingsBack => "assets/images/svg/icons/settings-back.svg"@,
        IconName::SettingsPlaceholder => "assets/images/svg/icons/settings-placeholder.svg"@,
        IconName::SignOut => "assets/images/svg/icons/sign-out.svg"@,
        IconName::SidebarToggle => "assets/images/svg/icons/sidebar-toggle.svg"@,
        IconName::SidebarToggleFilled => "assets/images/svg/icons/sidebar-toggle-filled.svg"@,
        IconName::Sun => "assets/images/svg/icons/sun.svg"@,
        IconName::TutorialHelp => "assets/images/svg/icons/tutorial-help.svg"@,
    }
}

impl IconName {
    /// Path of the SVG asset of this icon.
    pub fn src(self) -> (r: &'static str)
        ensures
            r@ == icon_path(self),
    {
        match self {
            IconName::Check => "assets/images/svg/icons/check.svg",
            IconName::ChevronLeft => "assets/images/svg/icons/chevron-left.svg",
            IconName::ChevronRight => "assets/images/svg/icons/chevron-right.svg",
            IconName::Close => "assets/images/svg/icons/close.svg",
            IconName::Copy => "assets/images/svg/icons/copy.svg",
            IconName::CopyDone => "assets/images/svg/icons/copy-done.svg",
            IconName::Delete => "assets/images/svg/icons/delete.svg",
            IconName::Download => "assets/images/svg/icons/download.svg",
            IconName::Edit => "assets/images/svg/icons/edit.svg",
            IconName::Folder => "assets/images/svg/icons/folder.svg",
            IconName::Github => "assets/images/svg/icons/github.svg",
            IconName::Globe => "assets/images/svg/icons/globe.svg",
            IconName::Key => "assets/images/svg/icons/key.svg",
            IconName::Monitor => "assets/images/svg/icons/monitor.svg",
            IconName::Moon => "assets/images/svg/icons/moon.svg",
            IconName::MoreVertical => "assets/images/svg/icons/more-vertical.svg",
            IconName::Power => "assets/images/svg/icons/power.svg",
            IconName::QuickRoutes => "assets/images/svg/icons/quick-routes.svg",
            IconName::Server => "assets/images/svg/icons/server.svg",
            IconName::SettingsBack => "assets/images/svg/icons/settings-back.svg",
            IconName::SettingsPlaceholder => "assets/images/svg/icons/settings-placeholder.svg",
            IconName::SignOut => "assets/images/svg/icons/sign-out.svg",
            IconName::SidebarToggle => "assets/images/svg/icons/sidebar-toggle.svg",
            IconName::SidebarToggleFilled => "assets/images/svg/icons/sidebar-toggle-filled.svg",
            IconName::Sun => "assets/images/svg/icons/sun.svg",
            IconName::TutorialHelp => "assets/images/svg/icons/tutorial-help.svg",
        }
    }
}


/// Classes of an icon's wrapper: the base classes, then the caller's classes
/// when there are any.
pub fn icon_class(base: &str, class: &str) -> (r: String)
    ensures
        class@.len() == 0 ==> r@ == base@,
        class@.len() != 0 ==> r@ == base@ + " "@ + class@,
{
    let mut r = String::from_str(base);
    if !class.is_empty() {
        r.append(" ");
        r.append(class);
    }
    r
}

/// The SVG markup as an inline icon shows it: the root element fills its box,
/// and white fills and strokes follow the text colour.
pub open spec fn themed_svg(svg: Seq<char>) -> Seq<char> {
    replace_all(
        replace_all(
            replace_all(
                replace_all(
                    replace_all(
                        svg,
                        "<svg "@,
                        "<svg style=\"width:100%;height:100%;display:block;\" "@,
                    ),
                    "#fff"@,
                    "currentColor"@,
                ),
                "#FFF"@,
                "currentColor"@,
            ),
            "#ffffff"@,
            "currentColor"@,
        ),
        "#FFFFFF"@,
        "currentColor"@,
    )
}

/// Rewrite an icon's SVG markup for inline display.
pub fn icon_markup(svg: &str) -> (r: String)
    ensures
        r@ == themed_svg(svg@),
{
    proof {
        reveal_strlit("<svg ");
        reveal_strlit("#fff");
        reveal_strlit("#FFF");
        reveal_strlit("#ffffff");
        reveal_strlit("#FFFFFF");
    }
    let a = replace_str(svg, "<svg ", "<svg style=\"width:100%;height:100%;display:block;\" ");
    let b = replace_str(a.as_str(), "#fff", "currentColor");
    let c = replace_str(b.as_str(), "#FFF", "currentColor");
    let d = replace_str(c.as_str(), "#ffffff", "currentColor");
    replace_str(d.as_str(), "#FFFFFF", "currentColor")
}

} // verus!

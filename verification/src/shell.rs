//! Hope Shell configuration and the Deep Space theme files it writes.

use vstd::prelude::*;
use crate::text::{append_str, string_of};

verus! {

/// Root configuration for Hope Shell.
#[derive(Debug, Clone)]
pub struct HopeShellConfig {
    /// Compositor backend settings.
    pub compositor: CompositorConfig,
    /// Theme settings.
    pub theme: ThemeConfig,
    /// Panel settings.
    pub panel: PanelConfig,
    /// Keyboard shortcuts.
    pub keybindings: KeybindingConfig,
}

/// Compositor backend selection.
#[derive(Debug, Clone)]
pub struct CompositorConfig {
    /// Backend to use: "river", "cage", "sway", or "auto".
    pub backend: String,
    /// Enable XWayland compatibility.
    pub xwayland: bool,
    /// Enable direct scanout for gaming.
    pub direct_scanout: bool,
    /// Enable Variable Refresh Rate.
    pub vrr: bool,
}

/// Theme configuration.
#[derive(Debug, Clone)]
pub struct ThemeConfig {
    /// Theme name: "deep-space", "light".
    pub name: String,
    /// Background color (hex).
    pub background: String,
    /// Foreground color (hex).
    pub foreground: String,
    /// Accent colors.
    pub accents: AccentColors,
    /// Blur intensity (0 = off, 1-10 = blur level).
    pub blur: u8,
    /// Window opacity (0.0 - 1.0), held as the bits of an `f32`.
    pub opacity_bits: u32,
}

/// Accent colors for the Deep Space theme.
#[derive(Debug, Clone)]
pub struct AccentColors {
    /// Primary accent (indigo).
    pub primary: String,
    /// Secondary accent (violet).
    pub secondary: String,
    /// Tertiary accent (cyan).
    pub tertiary: String,
    /// Error/danger color.
    pub error: String,
    /// Success color.
    pub success: String,
}

/// Panel configuration.
#[derive(Debug, Clone)]
pub struct PanelConfig {
    /// Position: "bottom", "top", "left", "right".
    pub position: String,
    /// Height in pixels.
    pub height: u32,
    /// Auto-hide.
    pub autohide: bool,
    /// Show clock.
    pub clock: bool,
    /// Show systray.
    pub systray: bool,
}

/// Keybinding configuration.
#[derive(Debug, Clone)]
pub struct KeybindingConfig {
    /// Launcher key (default: Super).
    pub launcher: String,
    /// Terminal key.
    pub terminal: String,
    /// HopeMind key.
    pub hopemind: String,
}

/// The bits of the `f32` 0.95, the default window opacity.
pub const DEFAULT_OPACITY_BITS: u32 = 0x3f73_3333;

/// The default configuration.
pub open spec fn is_default_config(c: HopeShellConfig) -> bool {
    &&& c.compositor.backend@ == "auto"@
    &&& c.compositor.xwayland
    &&& c.compositor.direct_scanout
    &&& c.compositor.vrr
    &&& c.theme.name@ == "deep-space"@
    &&& c.theme.background@ == "#0F0F12"@
    &&& c.theme.foreground@ == "#E0E0E8"@
    &&& c.theme.accents.primary@ == "#6366F1"@
    &&& c.theme.accents.secondary@ == "#8B5CF6"@
    &&& c.theme.accents.tertiary@ == "#06B6D4"@
    &&& c.theme.accents.error@ == "#EF4444"@
    &&& c.theme.accents.success@ == "#22C55E"@
    &&& c.theme.blur == 5
    &&& c.theme.opacity_bits == DEFAULT_OPACITY_BITS
    &&& c.panel.position@ == "bottom"@
    &&& c.panel.height == 32
    &&& !c.panel.autohide
    &&& c.panel.clock
    &&& c.panel.systray
    &&& c.keybindings.launcher@ == "Super"@
    &&& c.keybindings.terminal@ == "Super+Return"@
    &&& c.keybindings.hopemind@ == "Super+H"@
}

impl Default for HopeShellConfig {
    fn default() -> (r: HopeShellConfig)
        ensures
            is_default_config(r),
    {
        HopeShellConfig {
            compositor: CompositorConfig {
                backend: String::from_str("auto"),
                xwayland: true,
                direct_scanout: true,
                vrr: true,
            },
            theme: ThemeConfig {
                name: String::from_str("deep-space"),
                background: String::from_str("#0F0F12"),
                foreground: String::from_str("#E0E0E8"),
                accents: AccentColors {
                    primary: String::from_str("#6366F1"),
                    secondary: String::from_str("#8B5CF6"),
                    tertiary: String::from_str("#06B6D4"),
                    error: String::from_str("#EF4444"),
                    success: String::from_str("#22C55E"),
                },
                blur: 5,
                opacity_bits: DEFAULT_OPACITY_BITS,
            },
            panel: PanelConfig {
                position: String::from_str("bottom"),
                height: 32,
                autohide: false,
                clock: true,
                systray: true,
            },
            keybindings: KeybindingConfig {
                launcher: String::from_str("Super"),
                terminal: String::from_str("Super+Return"),
                hopemind: String::from_str("Super+H"),
            },
        }
    }
}

/// The GTK 4 settings file of the Deep Space theme.
pub open spec fn gtk4_settings_text() -> Seq<char> {
    "# Hope OS — GTK4 Deep Space Theme\n[Settings]\ngtk-application-prefer-dark-theme=true\ngtk-theme-name=Hope-DeepSpace\ngtk-icon-theme-name=Papirus-Dark\ngtk-cursor-theme-name=Adwaita\ngtk-cursor-theme-size=24\ngtk-font-name=Inter 10\ngtk-decoration-layout=close,minimize,maximize\ngtk-enable-animations=true\ngtk-enable-primary-paste=true\ngtk-recent-files-enabled=false\ngtk-modules=appmenu-gtk-module\n"@
}

/// Writes the GTK 4 settings file.
pub fn gtk4_settings() -> (r: String)
    ensures
        r@ == gtk4_settings_text(),
{
    String::from_str("# Hope OS — GTK4 Deep Space Theme\n[Settings]\ngtk-application-prefer-dark-theme=true\ngtk-theme-name=Hope-DeepSpace\ngtk-icon-theme-name=Papirus-Dark\ngtk-cursor-theme-name=Adwaita\ngtk-cursor-theme-size=24\ngtk-font-name=Inter 10\ngtk-decoration-layout=close,minimize,maximize\ngtk-enable-animations=true\ngtk-enable-primary-paste=true\ngtk-recent-files-enabled=false\ngtk-modules=appmenu-gtk-module\n")
}

/// The Waybar style sheet for a theme.
pub open spec fn waybar_css_text(theme: ThemeConfig) -> Seq<char> {
    "/* Hope OS — Waybar Deep Space Theme */\n\n* {\n    font-family: \"Inter\", \"Symbols Nerd Font\", sans-serif;\n    font-size: 13px;\n    color: "@
        + theme.foreground@
        + ";\n}\n\nwindow#waybar {\n    background-color: "@
        + theme.background@
        + ";\n    border-top: 1px solid "@
        + theme.accents.primary@
        + ";\n}\n\n#workspaces button {\n    padding: 0 8px;\n    color: "@
        + theme.foreground@
        + ";\n    background-color: transparent;\n    border-radius: 4px;\n}\n\n#workspaces button.active {\n    background-color: "@
        + theme.accents.primary@
        + ";\n    color: #FFFFFF;\n}\n\n#clock, #battery, #pulseaudio, #network, #tray {\n    padding: 0 10px;\n    margin: 4px 2px;\n    border-radius: 4px;\n}\n\n#battery {\n    background-color: "@
        + theme.accents.success@
        + ";\n}\n\n#battery.warning {\n    background-color: "@
        + theme.accents.secondary@
        + ";\n}\n\n#battery.critical {\n    background-color: "@
        + theme.accents.error@
        + ";\n}\n"@
}

/// Writes the Waybar style sheet for a theme.
pub fn waybar_css(theme: &ThemeConfig) -> (r: String)
    ensures
        r@ == waybar_css_text(*theme),
{
    let mut out: Vec<char> = Vec::new();
    append_str(&mut out, "/* Hope OS — Waybar Deep Space Theme */\n\n* {\n    font-family: \"Inter\", \"Symbols Nerd Font\", sans-serif;\n    font-size: 13px;\n    color: ");
    append_str(&mut out, theme.foreground.as_str());
    append_str(&mut out, ";\n}\n\nwindow#waybar {\n    background-color: ");
    append_str(&mut out, theme.background.as_str());
    append_str(&mut out, ";\n    border-top: 1px solid ");
    append_str(&mut out, theme.accents.primary.as_str());
    append_str(&mut out, ";\n}\n\n#workspaces button {\n    padding: 0 8px;\n    color: ");
    append_str(&mut out, theme.foreground.as_str());
    append_str(&mut out, ";\n    background-color: transparent;\n    border-radius: 4px;\n}\n\n#workspaces button.active {\n    background-color: ");
    append_str(&mut out, theme.accents.primary.as_str());
    append_str(&mut out, ";\n    color: #FFFFFF;\n}\n\n#clock, #battery, #pulseaudio, #network, #tray {\n    padding: 0 10px;\n    margin: 4px 2px;\n    border-radius: 4px;\n}\n\n#battery {\n    background-color: ");
    append_str(&mut out, theme.accents.success.as_str());
    append_str(&mut out, ";\n}\n\n#battery.warning {\n    background-color: ");
    append_str(&mut out, theme.accents.secondary.as_str());
    append_str(&mut out, ";\n}\n\n#battery.critical {\n    background-color: ");
    append_str(&mut out, theme.accents.error.as_str());
    append_str(&mut out, ";\n}\n");
    string_of(&out)
}

/// The Foot terminal colour file for a theme.
pub open spec fn foot_ini_text(theme: ThemeConfig) -> Seq<char> {
    "# Hope OS — Foot Terminal Deep Space Theme\n\n[colors]\nbackground="@
        + theme.background@
        + "\nforeground="@
        + theme.foreground@
        + "\n\n[colors.normal]\nblack="@
        + theme.background@
        + "\nred="@
        + theme.accents.error@
        + "\ngreen="@
        + theme.accents.success@
        + "\nyellow=#F59E0B\nblue="@
        + theme.accents.primary@
        + "\nmagenta="@
        + theme.accents.secondary@
        + "\ncyan="@
        + theme.accents.tertiary@
        + "\nwhite=#FFFFFF\n\n[colors.bright]\nblack=#374151\nred=#F87171\ngreen=#4ADE80\nyellow=#FCD34D\nblue=#818CF8\nmagenta=#A78BFA\ncyan=#22D3EE\nwhite=#F9FAFB\n\n[csd]\npreferred=server\n"@
}

/// Writes the Foot terminal colour file for a theme.
pub fn foot_ini(theme: &ThemeConfig) -> (r: String)
    ensures
        r@ == foot_ini_text(*theme),
{
    let mut out: Vec<char> = Vec::new();
    append_str(&mut out, "# Hope OS — Foot Terminal Deep Space Theme\n\n[colors]\nbackground=");
    append_str(&mut out, theme.background.as_str());
    append_str(&mut out, "\nforeground=");
    append_str(&mut out, theme.foreground.as_str());
    append_str(&mut out, "\n\n[colors.normal]\nblack=");
    append_str(&mut out, theme.background.as_str());
    append_str(&mut out, "\nred=");
    append_str(&mut out, theme.accents.error.as_str());
    append_str(&mut out, "\ngreen=");
    append_str(&mut out, theme.accents.success.as_str());
    append_str(&mut out, "\nyellow=#F59E0B\nblue=");
    append_str(&mut out, theme.accents.primary.as_str());
    append_str(&mut out, "\nmagenta=");
    append_str(&mut out, theme.accents.secondary.as_str());
    append_str(&mut out, "\ncyan=");
    append_str(&mut out, theme.accents.tertiary.as_str());
    append_str(&mut out, "\nwhite=#FFFFFF\n\n[colors.bright]\nblack=#374151\nred=#F87171\ngreen=#4ADE80\nyellow=#FCD34D\nblue=#818CF8\nmagenta=#A78BFA\ncyan=#22D3EE\nwhite=#F9FAFB\n\n[csd]\npreferred=server\n");
    string_of(&out)
}

/// The places where the Deep Space wallpaper may be installed, in the order
/// they are tried.
pub open spec fn wallpaper_candidate(i: int) -> Seq<char> {
    if i == 0 {
        "/usr/share/hope/wallpapers/deep-space.png"@
    } else if i == 1 {
        "/usr/share/backgrounds/hope/deep-space.png"@
    } else {
        "/usr/share/wallpapers/hope/deep-space.png"@
    }
}

fn wallpaper_candidate_str(i: usize) -> (r: &'static str)
    requires
        i < 3,
    ensures
        r@ == wallpaper_candidate(i as int),
{
    if i == 0 {
        "/usr/share/hope/wallpapers/deep-space.png"
    } else if i == 1 {
        "/usr/share/backgrounds/hope/deep-space.png"
    } else {
        "/usr/share/wallpapers/hope/deep-space.png"
    }
}

/// Whether something exists at a path, with `std::path::Path::exists`.
/// What is on disk decides; nothing is claimed of the answer.
#[verifier::external_body]
fn path_exists(path: &str) -> bool {
    std::path::Path::new(path).exists()
}

/// The index of the first candidate place that exists, given whether each
/// of the three exists.
pub open spec fn first_existing(exists: Seq<bool>) -> Option<int> {
    if exists[0] {
        Some(0)
    } else if exists[1] {
        Some(1)
    } else if exists[2] {
        Some(2)
    } else {
        None
    }
}

/// The Deep Space wallpaper, given whether a file exists at each candidate
/// place: the first place that exists, none when none does.
pub fn wallpaper_from_probes(exists: [bool; 3]) -> (r: Option<String>)
    ensures
        match first_existing(exists@) {
            Some(i) => r matches Some(p) && p@ == wallpaper_candidate(i),
            None => r is None,
        },
{
    let mut i: usize = 0;
    while i < 3
        invariant
            0 <= i <= 3,
            exists@.len() == 3,
            forall|k: int| 0 <= k < i ==> !exists@[k],
        decreases 3 - i,
    {
        if exists[i] {
            let p = wallpaper_candidate_str(i);
            return Some(String::from_str(p));
        }
        i = i + 1;
    }
    None
}

/// The Deep Space wallpaper: the first of the candidate places where a file
/// exists, if any. The places are probed in order until one exists.
pub fn wallpaper_path() -> (r: Option<String>)
    ensures
        r matches Some(p) ==> exists|i: int| 0 <= i < 3 && p@ == wallpaper_candidate(i),
{
    let e0 = path_exists(wallpaper_candidate_str(0));
    let e1 = !e0 && path_exists(wallpaper_candidate_str(1));
    let e2 = !e0 && !e1 && path_exists(wallpaper_candidate_str(2));
    wallpaper_from_probes([e0, e1, e2])
}

} // verus!

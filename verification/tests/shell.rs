use hope::shell::{foot_ini, gtk4_settings, waybar_css, wallpaper_from_probes, wallpaper_path, AccentColors, HopeShellConfig, ThemeConfig};

#[test]
fn default_config_is_valid() {
    let cfg = HopeShellConfig::default();
    assert_eq!(cfg.compositor.backend, "auto");
    assert!(cfg.compositor.xwayland);
    assert_eq!(cfg.theme.name, "deep-space");
    assert_eq!(cfg.theme.background, "#0F0F12");
    assert_eq!(f32::from_bits(cfg.theme.opacity_bits), 0.95f32);
    assert_eq!(cfg.panel.height, 32);
}

fn deep_space() -> ThemeConfig {
    ThemeConfig {
        name: "deep-space".to_string(),
        background: "#0F0F12".to_string(),
        foreground: "#E0E0E8".to_string(),
        accents: AccentColors {
            primary: "#6366F1".to_string(),
            secondary: "#8B5CF6".to_string(),
            tertiary: "#06B6D4".to_string(),
            error: "#EF4444".to_string(),
            success: "#22C55E".to_string(),
        },
        blur: 5,
        opacity_bits: 0.95f32.to_bits(),
    }
}

#[test]
fn deep_space_colors() {
    let theme = deep_space();
    assert_eq!(theme.background, "#0F0F12");
    assert_eq!(theme.accents.primary, "#6366F1");
}

#[test]
fn theme_files() {
    let theme = deep_space();
    let css = waybar_css(&theme);
    assert!(css.starts_with("/* Hope OS — Waybar Deep Space Theme */\n\n* {\n"));
    assert!(css.contains("    background-color: #0F0F12;\n    border-top: 1px solid #6366F1;\n"));
    assert!(css.ends_with("#battery.critical {\n    background-color: #EF4444;\n}\n"));
    let foot = foot_ini(&theme);
    assert!(foot.contains("[colors]\nbackground=#0F0F12\nforeground=#E0E0E8\n"));
    assert!(foot.contains("cyan=#06B6D4\n"));
    assert!(gtk4_settings().contains("gtk-theme-name=Hope-DeepSpace\n"));
}

#[test]
fn wallpaper_candidates() {
    if let Some(p) = wallpaper_path() {
        assert!(p.ends_with("deep-space.png"));
    }
}

#[test]
fn wallpaper_first_existing() {
    assert_eq!(wallpaper_from_probes([false, false, false]), None);
    assert_eq!(wallpaper_from_probes([true, true, true]).as_deref(), Some("/usr/share/hope/wallpapers/deep-space.png"));
    assert_eq!(wallpaper_from_probes([false, true, true]).as_deref(), Some("/usr/share/backgrounds/hope/deep-space.png"));
    assert_eq!(wallpaper_from_probes([false, false, true]).as_deref(), Some("/usr/share/wallpapers/hope/deep-space.png"));
}

//! Window manager configuration defaults and loading rules.

use userland::rwm_config::{
    default_keybinds, default_rules, Action, Appearance, BarConfig, ColorConfig, CompositorConfig, Config, GapConfig,
    PluginConfig, Profile, ScratchpadConfig, TagsConfig, MAX_TAGS,
};

#[test]
fn profile_default_is_pentester() {
    assert_eq!(Profile::default(), Profile::Pentester);
}

#[test]
fn color_config_for_each_profile() {
    let red = ColorConfig::for_profile(Profile::Pentester);
    assert_eq!(red.rogue_red, "#ff0000");
    assert_eq!(red.sel_fg, "#ffffff");
    assert_eq!(red.sel_border, "#ff0000");
    assert_eq!(red.void, "#050505");
    let blue = ColorConfig::for_profile(Profile::Developer);
    assert_eq!(blue.sel_bg, "#0a84ff");
    assert_eq!(blue.sel_fg, "#ffffff");
    let white = ColorConfig::for_profile(Profile::PowerUser);
    assert_eq!(white.sel_bg, "#ffffff");
    assert_eq!(white.sel_fg, "#000000");
    assert_eq!(white.norm_border, "#111111");
}

#[test]
fn appearance_defaults() {
    let a = Appearance::default_with_profile(Profile::Developer);
    assert_eq!(a.font, "JetBrainsMono Nerd Font:size=11");
    assert_eq!(a.border_width, 2);
    assert_eq!(a.snap, 16);
    assert_eq!(a.gaps.inner_h, 4);
    assert!(a.gaps.smart_gaps);
    assert_eq!(a.colors.rogue_red, "#0a84ff");
    let d = Appearance::default();
    assert_eq!(d.colors.rogue_red, "#ff0000");
}

#[test]
fn gap_bar_tags_defaults() {
    let g = GapConfig::default();
    assert_eq!((g.inner_h, g.inner_v, g.outer_h, g.outer_v), (4, 4, 4, 4));
    let b = BarConfig::default();
    assert!(b.enabled);
    assert_eq!(b.position, "top");
    assert_eq!(b.height, 0);
    assert_eq!(b.left, vec!["tags", "layout", "title"]);
    assert_eq!(b.right.len(), 7);
    assert_eq!(b.right[6], "clock");
    let t = TagsConfig::default();
    assert_eq!(t.names.len(), 9);
    assert_eq!(t.names[0], "\u{eb01}");
}

#[test]
fn plugin_scratchpad_compositor_defaults() {
    let p = PluginConfig::default();
    assert_eq!(p.lua_paths, vec!["~/.config/roguewm/plugins"]);
    assert!(p.lua_files.is_empty());
    let s = ScratchpadConfig::default();
    assert_eq!(s.name, "scratchpad");
    assert_eq!(s.cmd, vec!["st", "-t", "scratchpad"]);
    let c = CompositorConfig::default();
    assert!(c.enabled);
    assert_eq!(c.command, "picom");
    assert_eq!(c.args, vec!["--config", "/etc/xdg/picom/picom.conf"]);
}

#[test]
fn default_keybinds_table() {
    let k = default_keybinds();
    assert_eq!(k.len(), 33 + 36);
    assert_eq!(k[0].modifiers, vec!["Super", "Shift"]);
    assert_eq!(k[0].key, "Return");
    assert!(matches!(&k[0].action, Action::Spawn { cmd } if cmd == &vec!["st".to_string()]));
    assert!(matches!(k[7].action, Action::SetMfact { delta_pct: -5 }));
    assert!(matches!(k[9].action, Action::SetCfact { delta_pct: 25 }));
    assert!(k[28].modifiers.is_empty());
    assert_eq!(k[28].key, "Print");
    // tag 1: view, move, toggle view, toggle client tag
    assert_eq!(k[33].key, "1");
    assert!(matches!(k[33].action, Action::ViewTag { tag: 1 }));
    assert!(matches!(k[34].action, Action::MoveToTag { tag: 1 }));
    assert_eq!(k[35].modifiers, vec!["Super", "Control"]);
    assert!(matches!(k[36].action, Action::ToggleClientTag { tag: 1 }));
    assert_eq!(k[36].modifiers, vec!["Super", "Control", "Shift"]);
    // tag 9 last
    assert_eq!(k[68].key, "9");
    assert!(matches!(k[68].action, Action::ToggleClientTag { tag: 9 }));
}

#[test]
fn default_rules_table() {
    let r = default_rules();
    assert_eq!(r.len(), 10);
    assert_eq!(r[0].class.as_deref(), Some("Firefox"));
    assert_eq!(r[0].tag, 3);
    assert_eq!(r[0].floating, Some(false));
    assert_eq!(r[8].class.as_deref(), Some("Gimp"));
    assert_eq!(r[8].floating, Some(true));
    assert_eq!(r[9].class, None);
    assert_eq!(r[9].title.as_deref(), Some("Event Tester"));
}

#[test]
fn config_default_and_validate_truncates_tags() {
    let mut c = Config::default();
    assert_eq!(c.profile, Profile::Pentester);
    assert_eq!(c.keybinds.len(), 69);
    for i in 0..5 {
        c.tags.names.push(format!("extra{}", i));
    }
    assert_eq!(c.tags.names.len(), 14);
    c.validate();
    assert_eq!(c.tags.names.len(), MAX_TAGS);
    assert_eq!(c.tags.names[8], "\u{eb51}");
}

#[test]
fn finish_load_applies_profile_colours() {
    let mut c = Config::default();
    c.profile = Profile::PowerUser;
    c.tags.names = (0..12).map(|i| i.to_string()).collect();
    let c = c.finish_load();
    assert_eq!(c.appearance.colors.sel_bg, "#ffffff");
    assert_eq!(c.appearance.colors.sel_fg, "#000000");
    assert_eq!(c.tags.names.len(), 9);
    assert_eq!(c.tags.names[8], "8");
}

//! Configuration for the window manager: profile, appearance, bar, tags,
//! key bindings, window rules, plugins, scratchpad and compositor.
//!
//! Defaults are the rogue theme (`#050505` void, `#ff0000` rogue red,
//! `#111111` panel, JetBrainsMono Nerd Font). Reading and writing the TOML
//! file is the caller's part; this module holds the values and the rules
//! applied to a loaded file.

use vstd::prelude::*;

verus! {

/// An owned copy of a string.
fn owned(lit: &str) -> (r: String)
    ensures
        r@ == lit@,
{
    lit.to_owned()
}

/// User profile: selects the colour theme (Pentester=red, Developer=blue, PowerUser=white).
#[derive(Debug, Clone, Copy, PartialEq, Eq, Structural)]
pub enum Profile {
    Pentester,
    Developer,
    PowerUser,
}

impl Default for Profile {
    fn default() -> (p: Self)
        ensures
            p == Profile::Pentester,
    {
        Profile::Pentester
    }
}

/// Gaps between windows and around the screen edge.
#[derive(Debug, Clone)]
pub struct GapConfig {
    pub inner_h: i32,
    pub inner_v: i32,
    pub outer_h: i32,
    pub outer_v: i32,
    /// Disable outer gaps when only one window is visible.
    pub smart_gaps: bool,
}

impl GapConfig {
    /// Four pixels everywhere, smart gaps on.
    pub open spec fn is_default(&self) -> bool {
        self.inner_h == 4 && self.inner_v == 4 && self.outer_h == 4 && self.outer_v == 4 && self.smart_gaps
    }
}

impl Default for GapConfig {
    fn default() -> (g: Self)
        ensures
            g.is_default(),
    {
        Self { inner_h: 4, inner_v: 4, outer_h: 4, outer_v: 4, smart_gaps: true }
    }
}

/// Colour scheme: the palette and the derived normal / selected schemes.
#[derive(Debug, Clone)]
pub struct ColorConfig {
    /// Background for void areas (`#050505`).
    pub void: String,
    /// Deepest black, the bar background (`#000000`).
    pub void_deep: String,
    /// Panel / elevated surface (`#111111`).
    pub panel: String,
    /// Primary accent (the profile's accent colour).
    pub rogue_red: String,
    /// Bright text (`#ffffff`).
    pub white: String,
    /// Secondary text (`#888888`).
    pub gray: String,
    /// Border / divider (`#333333`).
    pub border: String,
    /// Warning accent (`#ffb703`).
    pub warning: String,
    /// Normal foreground (inactive tags, status text).
    pub norm_fg: String,
    /// Normal background (bar bg).
    pub norm_bg: String,
    /// Normal border (unfocused windows).
    pub norm_border: String,
    /// Selected foreground (active tag text, focused title).
    pub sel_fg: String,
    /// Selected background (active tag bg, focused title bg).
    pub sel_bg: String,
    /// Selected border (focused windows).
    pub sel_border: String,
}

/// The accent colour of a profile.
pub open spec fn profile_accent(p: Profile) -> Seq<char> {
    match p {
        Profile::Pentester => "#ff0000"@,
        Profile::Developer => "#0a84ff"@,
        Profile::PowerUser => "#ffffff"@,
    }
}

/// The text colour on the accent of a profile.
pub open spec fn profile_sel_fg(p: Profile) -> Seq<char> {
    match p {
        Profile::Pentester => "#ffffff"@,
        Profile::Developer => "#ffffff"@,
        Profile::PowerUser => "#000000"@,
    }
}

impl ColorConfig {
    /// The scheme of `p`: the fixed palette, with the profile's accent as
    /// accent, selected background and selected border.
    pub open spec fn is_for_profile(&self, p: Profile) -> bool {
        &&& self.void@ == "#050505"@
        &&& self.void_deep@ == "#000000"@
        &&& self.panel@ == "#111111"@
        &&& self.rogue_red@ == profile_accent(p)
        &&& self.white@ == "#ffffff"@
        &&& self.gray@ == "#888888"@
        &&& self.border@ == "#333333"@
        &&& self.warning@ == "#ffb703"@
        &&& self.norm_fg@ == "#888888"@
        &&& self.norm_bg@ == "#000000"@
        &&& self.norm_border@ == "#111111"@
        &&& self.sel_fg@ == profile_sel_fg(p)
        &&& self.sel_bg@ == profile_accent(p)
        &&& self.sel_border@ == profile_accent(p)
    }

    /// Colour preset for the given profile: Pentester=red, Developer=blue, PowerUser=white.
    pub fn for_profile(profile: Profile) -> (c: Self)
        ensures
            c.is_for_profile(profile),
    {
        let (accent, sel_fg) = match profile {
            Profile::Pentester => ("#ff0000", "#ffffff"),
            Profile::Developer => ("#0a84ff", "#ffffff"),
            Profile::PowerUser => ("#ffffff", "#000000"),
        };
        Self {
            void: owned("#050505"),
            void_deep: owned("#000000"),
            panel: owned("#111111"),
            rogue_red: owned(accent),
            white: owned("#ffffff"),
            gray: owned("#888888"),
            border: owned("#333333"),
            warning: owned("#ffb703"),
            norm_fg: owned("#888888"),
            norm_bg: owned("#000000"),
            norm_border: owned("#111111"),
            sel_fg: owned(sel_fg),
            sel_bg: owned(accent),
            sel_border: owned(accent),
        }
    }
}

impl Default for ColorConfig {
    fn default() -> (c: Self)
        ensures
            c.is_for_profile(Profile::Pentester),
    {
        Self::for_profile(Profile::Pentester)
    }
}

/// Visual appearance: font, borders, snap distance, gaps, colours.
#[derive(Debug, Clone)]
pub struct Appearance {
    /// Font for bar and menu.
    pub font: String,
    /// Window border width in pixels.
    pub border_width: u32,
    /// Snap distance for mouse operations.
    pub snap: u32,
    /// Gap configuration.
    pub gaps: GapConfig,
    /// Colour scheme.
    pub colors: ColorConfig,
}

impl Appearance {
    /// The default appearance for profile `p`.
    pub open spec fn is_default_for(&self, p: Profile) -> bool {
        &&& self.font@ == "JetBrainsMono Nerd Font:size=11"@
        &&& self.border_width == 2
        &&& self.snap == 16
        &&& self.gaps.is_default()
        &&& self.colors.is_for_profile(p)
    }

    /// Default appearance for a given profile (theme colours).
    pub fn default_with_profile(profile: Profile) -> (a: Self)
        ensures
            a.is_default_for(profile),
    {
        Self {
            font: owned("JetBrainsMono Nerd Font:size=11"),
            border_width: 2,
            snap: 16,
            gaps: GapConfig::default(),
            colors: ColorConfig::for_profile(profile),
        }
    }
}

impl Default for Appearance {
    fn default() -> (a: Self)
        ensures
            a.is_default_for(Profile::Pentester),
    {
        Self::default_with_profile(Profile::Pentester)
    }
}

/// The contents of a list of strings.
pub open spec fn strs(v: Seq<String>) -> Seq<Seq<char>> {
    v.map_values(|x: String| x@)
}

/// An owned list of strings.
fn owned_list(lits: &[&str]) -> (r: Vec<String>)
    ensures
        strs(r@) == lits@.map_values(|x: &str| x@),
{
    let mut r: Vec<String> = Vec::new();
    let mut i: usize = 0;
    while i < lits.len()
        invariant
            i <= lits@.len(),
            r@.len() == i,
            forall|k: int| 0 <= k < i ==> #[trigger] r@[k]@ == lits@[k]@,
        decreases lits@.len() - i,
    {
        r.push(owned(lits[i]));
        i += 1;
    }
    assert(strs(r@) =~= lits@.map_values(|x: &str| x@));
    r
}

/// Status bar: placement, height and widgets.
#[derive(Debug, Clone)]
pub struct BarConfig {
    pub enabled: bool,
    /// `"top"` or `"bottom"`.
    pub position: String,
    /// Bar height in pixels (0 = auto from font).
    pub height: u32,
    /// Widgets on the left side of the bar.
    pub left: Vec<String>,
    /// Widgets on the right side of the bar.
    pub right: Vec<String>,
}

impl BarConfig {
    /// Enabled, on top, automatic height, tags / layout / title on the left
    /// and the system widgets on the right.
    pub open spec fn is_default(&self) -> bool {
        &&& self.enabled
        &&& self.position@ == "top"@
        &&& self.height == 0
        &&& strs(self.left@) == seq!["tags"@, "layout"@, "title"@]
        &&& strs(self.right@) == seq!["target"@, "network"@, "volume"@, "battery"@, "cpu"@, "memory"@, "clock"@]
    }
}

impl Default for BarConfig {
    fn default() -> (b: Self)
        ensures
            b.is_default(),
    {
        let left = owned_list(&["tags", "layout", "title"]);
        let right = owned_list(&["target", "network", "volume", "battery", "cpu", "memory", "clock"]);
        let b = Self { enabled: true, position: owned("top"), height: 0, left, right };
        assert(strs(b.left@) =~= seq!["tags"@, "layout"@, "title"@]);
        assert(strs(b.right@) =~= seq!["target"@, "network"@, "volume"@, "battery"@, "cpu"@, "memory"@, "clock"@]);
        b
    }
}

/// Maximum number of tags (the window manager's tag count).
pub const MAX_TAGS: usize = 9;

/// Tag display names.
#[derive(Debug, Clone)]
pub struct TagsConfig {
    /// Tag display names (at most nine are kept).
    pub names: Vec<String>,
}

/// The default tag names: Nerd Font icons for terminal, code, browser,
/// security, monitoring, documents, messages, media and settings.
pub open spec fn default_tag_names() -> Seq<Seq<char>> {
    seq![
        "\u{eb01}"@, "\u{eb10}"@, "\u{f0239}"@, "\u{f0483}"@, "\u{f0379}"@,
        "\u{ea7b}"@, "\u{f066f}"@, "\u{f057c}"@, "\u{eb51}"@,
    ]
}

impl Default for TagsConfig {
    fn default() -> (t: Self)
        ensures
            strs(t.names@) == default_tag_names(),
    {
        let names = owned_list(&[
            "\u{eb01}", "\u{eb10}", "\u{f0239}", "\u{f0483}", "\u{f0379}",
            "\u{ea7b}", "\u{f066f}", "\u{f057c}", "\u{eb51}",
        ]);
        assert(strs(names@) =~= default_tag_names());
        Self { names }
    }
}

/// Lua plugins: search directories and scripts.
#[derive(Debug, Clone)]
pub struct PluginConfig {
    /// Directories to search for Lua plugins.
    pub lua_paths: Vec<String>,
    /// Specific Lua scripts to load.
    pub lua_files: Vec<String>,
}

impl Default for PluginConfig {
    fn default() -> (p: Self)
        ensures
            strs(p.lua_paths@) == seq!["~/.config/roguewm/plugins"@],
            p.lua_files@.len() == 0,
    {
        let lua_paths = owned_list(&["~/.config/roguewm/plugins"]);
        assert(strs(lua_paths@) =~= seq!["~/.config/roguewm/plugins"@]);
        Self { lua_paths, lua_files: Vec::new() }
    }
}

/// The scratchpad terminal: the title it is found by and how it is started.
#[derive(Debug, Clone)]
pub struct ScratchpadConfig {
    /// Name to match window title.
    pub name: String,
    /// Command to spawn the scratchpad.
    pub cmd: Vec<String>,
}

impl Default for ScratchpadConfig {
    fn default() -> (sp: Self)
        ensures
            sp.name@ == "scratchpad"@,
            strs(sp.cmd@) == seq!["st"@, "-t"@, "scratchpad"@],
    {
        let cmd = owned_list(&["st", "-t", "scratchpad"]);
        assert(strs(cmd@) =~= seq!["st"@, "-t"@, "scratchpad"@]);
        Self { name: owned("scratchpad"), cmd }
    }
}

/// The compositor launched with the window manager.
#[derive(Debug, Clone)]
pub struct CompositorConfig {
    /// Whether to launch the compositor on startup.
    pub enabled: bool,
    /// Compositor binary name.
    pub command: String,
    /// Arguments to pass to the compositor.
    pub args: Vec<String>,
}

impl Default for CompositorConfig {
    fn default() -> (c: Self)
        ensures
            c.enabled,
            c.command@ == "picom"@,
            strs(c.args@) == seq!["--config"@, "/etc/xdg/picom/picom.conf"@],
    {
        let args = owned_list(&["--config", "/etc/xdg/picom/picom.conf"]);
        assert(strs(args@) =~= seq!["--config"@, "/etc/xdg/picom/picom.conf"@]);
        Self { enabled: true, command: owned("picom"), args }
    }
}

/// A key binding: modifiers, key name and action.
#[derive(Debug, Clone)]
pub struct Keybind {
    /// Modifier keys: `"Super"`, `"Shift"`, `"Control"`, `"Alt"`.
    pub modifiers: Vec<String>,
    /// Key name (X11 keysym name, e.g. `"Return"`, `"p"`, `"1"`).
    pub key: String,
    /// Action to perform.
    pub action: Action,
}

/// What a key binding does. Master and client factors move in percent.
#[derive(Debug, Clone)]
pub enum Action {
    /// Spawn an external command.
    Spawn { cmd: Vec<String> },
    /// Switch to a layout by name.
    SetLayout { name: String },
    /// View specific tags (bitmask).
    ViewTag { tag: u32 },
    /// Move client to tag.
    MoveToTag { tag: u32 },
    /// Toggle view of a tag.
    ToggleViewTag { tag: u32 },
    /// Toggle client on a tag.
    ToggleClientTag { tag: u32 },
    /// Focus next/prev in stack.
    FocusStack { direction: i32 },
    /// Adjust the master factor by this many percent.
    SetMfact { delta_pct: i32 },
    /// Adjust the focused client's factor by this many percent (0 resets it).
    SetCfact { delta_pct: i32 },
    /// Inc/dec master count.
    IncNmaster { delta: i32 },
    /// Promote focused to master.
    Zoom,
    /// Kill focused client.
    KillClient,
    /// Toggle bar.
    ToggleBar,
    /// Toggle scratchpad.
    ToggleScratchpad,
    /// Toggle focused client floating/tiled.
    ToggleFloating,
    /// Toggle focused client fullscreen.
    ToggleFullscreen,
    /// Quit the window manager.
    Quit,
    /// View previous tags.
    ViewPrevious,
    /// Inc/dec gaps.
    IncGaps { delta: i32 },
    /// Toggle gaps on/off.
    ToggleGaps,
    /// Reset gaps to default.
    DefaultGaps,
    /// Focus next/prev monitor.
    FocusMonitor { direction: i32 },
    /// Reload config.
    ReloadConfig,
    /// Run a Lua plugin command.
    LuaCommand { name: String },
    /// Screenshot full screen to clipboard.
    Screenshot,
    /// Screenshot selected region to clipboard.
    ScreenshotSelect,
    /// Screenshot full screen saved to ~/screenshots/.
    ScreenshotSave,
    /// Pick a colour from the screen.
    ColorPicker,
    /// Start/stop screen recording.
    ToggleRecording,
}

/// An action with its strings seen as character sequences.
pub enum ActionView {
    Spawn { cmd: Seq<Seq<char>> },
    SetLayout { name: Seq<char> },
    ViewTag { tag: u32 },
    MoveToTag { tag: u32 },
    ToggleViewTag { tag: u32 },
    ToggleClientTag { tag: u32 },
    FocusStack { direction: i32 },
    SetMfact { delta_pct: i32 },
    SetCfact { delta_pct: i32 },
    IncNmaster { delta: i32 },
    Zoom,
    KillClient,
    ToggleBar,
    ToggleScratchpad,
    ToggleFloating,
    ToggleFullscreen,
    Quit,
    ViewPrevious,
    IncGaps { delta: i32 },
    ToggleGaps,
    DefaultGaps,
    FocusMonitor { direction: i32 },
    ReloadConfig,
    LuaCommand { name: Seq<char> },
    Screenshot,
    ScreenshotSelect,
    ScreenshotSave,
    ColorPicker,
    ToggleRecording,
}

impl View for Action {
    type V = ActionView;

    open spec fn view(&self) -> ActionView {
        match self {
            Action::Spawn { cmd } => ActionView::Spawn { cmd: strs(cmd@) },
            Action::SetLayout { name } => ActionView::SetLayout { name: name@ },
            Action::ViewTag { tag } => ActionView::ViewTag { tag: *tag },
            Action::MoveToTag { tag } => ActionView::MoveToTag { tag: *tag },
            Action::ToggleViewTag { tag } => ActionView::ToggleViewTag { tag: *tag },
            Action::ToggleClientTag { tag } => ActionView::ToggleClientTag { tag: *tag },
            Action::FocusStack { direction } => ActionView::FocusStack { direction: *direction },
            Action::SetMfact { delta_pct } => ActionView::SetMfact { delta_pct: *delta_pct },
            Action::SetCfact { delta_pct } => ActionView::SetCfact { delta_pct: *delta_pct },
            Action::IncNmaster { delta } => ActionView::IncNmaster { delta: *delta },
            Action::Zoom => ActionView::Zoom,
            Action::KillClient => ActionView::KillClient,
            Action::ToggleBar => ActionView::ToggleBar,
            Action::ToggleScratchpad => ActionView::ToggleScratchpad,
            Action::ToggleFloating => ActionView::ToggleFloating,
            Action::ToggleFullscreen => ActionView::ToggleFullscreen,
            Action::Quit => ActionView::Quit,
            Action::ViewPrevious => ActionView::ViewPrevious,
            Action::IncGaps { delta } => ActionView::IncGaps { delta: *delta },
            Action::ToggleGaps => ActionView::ToggleGaps,
            Action::DefaultGaps => ActionView::DefaultGaps,
            Action::FocusMonitor { direction } => ActionView::FocusMonitor { direction: *direction },
            Action::ReloadConfig => ActionView::ReloadConfig,
            Action::LuaCommand { name } => ActionView::LuaCommand { name: name@ },
            Action::Screenshot => ActionView::Screenshot,
            Action::ScreenshotSelect => ActionView::ScreenshotSelect,
            Action::ScreenshotSave => ActionView::ScreenshotSave,
            Action::ColorPicker => ActionView::ColorPicker,
            Action::ToggleRecording => ActionView::ToggleRecording,
        }
    }
}

/// A key binding with its strings seen as character sequences.
pub struct KeybindView {
    pub modifiers: Seq<Seq<char>>,
    pub key: Seq<char>,
    pub action: ActionView,
}

impl View for Keybind {
    type V = KeybindView;

    open spec fn view(&self) -> KeybindView {
        KeybindView { modifiers: strs(self.modifiers@), key: self.key@, action: self.action@ }
    }
}

/// The views of a list of key bindings.
pub open spec fn keybind_views(v: Seq<Keybind>) -> Seq<KeybindView> {
    v.map_values(|k: Keybind| k@)
}

pub open spec fn kb(modifiers: Seq<Seq<char>>, key: Seq<char>, action: ActionView) -> KeybindView {
    KeybindView { modifiers, key, action }
}

pub open spec fn m_sup() -> Seq<Seq<char>> {
    seq!["Super"@]
}

pub open spec fn m_sup_shift() -> Seq<Seq<char>> {
    seq!["Super"@, "Shift"@]
}

pub open spec fn m_sup_ctrl() -> Seq<Seq<char>> {
    seq!["Super"@, "Control"@]
}

pub open spec fn m_sup_ctrl_shift() -> Seq<Seq<char>> {
    seq!["Super"@, "Control"@, "Shift"@]
}

/// The fixed bindings: programs, focus, layout, gaps, monitors and tools.
pub open spec fn fixed_keybinds() -> Seq<KeybindView> {
    seq![
        kb(m_sup_shift(), "Return"@, ActionView::Spawn { cmd: seq!["st"@] }),
        kb(m_sup(), "p"@, ActionView::Spawn { cmd: seq!["rogue-run"@] }),
        kb(m_sup(), "b"@, ActionView::ToggleBar),
        kb(m_sup(), "j"@, ActionView::FocusStack { direction: 1 }),
        kb(m_sup(), "k"@, ActionView::FocusStack { direction: -1i32 }),
        kb(m_sup(), "i"@, ActionView::IncNmaster { delta: 1 }),
        kb(m_sup(), "d"@, ActionView::IncNmaster { delta: -1i32 }),
        kb(m_sup(), "h"@, ActionView::SetMfact { delta_pct: -5i32 }),
        kb(m_sup(), "l"@, ActionView::SetMfact { delta_pct: 5 }),
        kb(m_sup_shift(), "h"@, ActionView::SetCfact { delta_pct: 25 }),
        kb(m_sup_shift(), "l"@, ActionView::SetCfact { delta_pct: -25i32 }),
        kb(m_sup_shift(), "o"@, ActionView::SetCfact { delta_pct: 0 }),
        kb(m_sup(), "Return"@, ActionView::Zoom),
        kb(m_sup(), "Tab"@, ActionView::ViewPrevious),
        kb(m_sup_shift(), "c"@, ActionView::KillClient),
        kb(m_sup(), "t"@, ActionView::SetLayout { name: "tile"@ }),
        kb(m_sup(), "m"@, ActionView::SetLayout { name: "monocle"@ }),
        kb(m_sup(), "f"@, ActionView::SetLayout { name: "spiral"@ }),
        kb(m_sup_shift(), "space"@, ActionView::ToggleFloating),
        kb(m_sup_shift(), "f"@, ActionView::ToggleFullscreen),
        kb(m_sup(), "grave"@, ActionView::ToggleScratchpad),
        kb(m_sup_ctrl(), "u"@, ActionView::IncGaps { delta: 1 }),
        kb(m_sup_ctrl_shift(), "u"@, ActionView::IncGaps { delta: -1i32 }),
        kb(m_sup_ctrl(), "0"@, ActionView::ToggleGaps),
        kb(m_sup_shift(), "q"@, ActionView::Quit),
        kb(m_sup_shift(), "r"@, ActionView::ReloadConfig),
        kb(m_sup(), "comma"@, ActionView::FocusMonitor { direction: -1i32 }),
        kb(m_sup(), "period"@, ActionView::FocusMonitor { direction: 1 }),
        kb(Seq::empty(), "Print"@, ActionView::Screenshot),
        kb(m_sup(), "Print"@, ActionView::ScreenshotSelect),
        kb(m_sup_shift(), "Print"@, ActionView::ScreenshotSave),
        kb(m_sup_shift(), "p"@, ActionView::ColorPicker),
        kb(m_sup_shift(), "v"@, ActionView::ToggleRecording),
    ]
}

/// The key of tag `i` (1 to 9): its digit.
pub open spec fn tag_key(i: int) -> Seq<char> {
    seq![(48 + i) as char]
}

/// The four bindings of tag `i`: Super views it, Super+Shift moves the
/// client to it, Super+Control toggles its view, Super+Control+Shift toggles
/// the client on it.
pub open spec fn tag_keybind(i: int, which: int) -> KeybindView {
    if which == 0 {
        kb(m_sup(), tag_key(i), ActionView::ViewTag { tag: i as u32 })
    } else if which == 1 {
        kb(m_sup_shift(), tag_key(i), ActionView::MoveToTag { tag: i as u32 })
    } else if which == 2 {
        kb(m_sup_ctrl(), tag_key(i), ActionView::ToggleViewTag { tag: i as u32 })
    } else {
        kb(m_sup_ctrl_shift(), tag_key(i), ActionView::ToggleClientTag { tag: i as u32 })
    }
}

/// The default bindings: the fixed ones, then four per tag for tags 1 to 9.
pub open spec fn spec_default_keybinds() -> Seq<KeybindView> {
    fixed_keybinds() + Seq::new(36, |j: int| tag_keybind(j / 4 + 1, j % 4))
}

fn bind(modifiers: &[&str], key: &str, action: Action) -> (k: Keybind)
    ensures
        k@ == kb(modifiers@.map_values(|x: &str| x@), key@, action@),
{
    Keybind { modifiers: owned_list(modifiers), key: owned(key), action }
}

fn tag_digit(i: u32) -> (s: String)
    requires
        1 <= i <= 9,
    ensures
        s@ == tag_key(i as int),
{
    proof {
        reveal_strlit("1");
        reveal_strlit("2");
        reveal_strlit("3");
        reveal_strlit("4");
        reveal_strlit("5");
        reveal_strlit("6");
        reveal_strlit("7");
        reveal_strlit("8");
        reveal_strlit("9");
    }
    let s = if i == 1 { owned("1") } else if i == 2 { owned("2") } else if i == 3 { owned("3") }
        else if i == 4 { owned("4") } else if i == 5 { owned("5") } else if i == 6 { owned("6") }
        else if i == 7 { owned("7") } else if i == 8 { owned("8") } else { owned("9") };
    assert(s@ =~= tag_key(i as int));
    s
}

proof fn lemma_div4(q: int, r: int)
    requires
        0 <= r < 4,
    ensures
        (4 * q + r) / 4 == q,
        (4 * q + r) % 4 == r,
{
    vstd::arithmetic::div_mod::lemma_fundamental_div_mod_converse(4 * q + r, 4, q, r);
}

fn fixed_binds() -> (binds: Vec<Keybind>)
    ensures
        keybind_views(binds@) == fixed_keybinds(),
{
    let sup: &[&str] = &["Super"];
    let sup_shift: &[&str] = &["Super", "Shift"];
    let sup_ctrl: &[&str] = &["Super", "Control"];
    let sup_ctrl_shift: &[&str] = &["Super", "Control", "Shift"];
    let none: &[&str] = &[];
    assert(sup@.map_values(|x: &str| x@) =~= m_sup());
    assert(sup_shift@.map_values(|x: &str| x@) =~= m_sup_shift());
    assert(sup_ctrl@.map_values(|x: &str| x@) =~= m_sup_ctrl());
    assert(sup_ctrl_shift@.map_values(|x: &str| x@) =~= m_sup_ctrl_shift());
    assert(none@.map_values(|x: &str| x@) =~= Seq::<Seq<char>>::empty());
    let st = owned_list(&["st"]);
    assert(strs(st@) =~= seq!["st"@]);
    let run = owned_list(&["rogue-run"]);
    assert(strs(run@) =~= seq!["rogue-run"@]);
    let mut b: Vec<Keybind> = Vec::new();
    b.push(bind(sup_shift, "Return", Action::Spawn { cmd: st }));
    b.push(bind(sup, "p", Action::Spawn { cmd: run }));
    b.push(bind(sup, "b", Action::ToggleBar));
    b.push(bind(sup, "j", Action::FocusStack { direction: 1 }));
    b.push(bind(sup, "k", Action::FocusStack { direction: -1 }));
    b.push(bind(sup, "i", Action::IncNmaster { delta: 1 }));
    b.push(bind(sup, "d", Action::IncNmaster { delta: -1 }));
    b.push(bind(sup, "h", Action::SetMfact { delta_pct: -5 }));
    b.push(bind(sup, "l", Action::SetMfact { delta_pct: 5 }));
    b.push(bind(sup_shift, "h", Action::SetCfact { delta_pct: 25 }));
    b.push(bind(sup_shift, "l", Action::SetCfact { delta_pct: -25 }));
    b.push(bind(sup_shift, "o", Action::SetCfact { delta_pct: 0 }));
    b.push(bind(sup, "Return", Action::Zoom));
    b.push(bind(sup, "Tab", Action::ViewPrevious));
    b.push(bind(sup_shift, "c", Action::KillClient));
    b.push(bind(sup, "t", Action::SetLayout { name: owned("tile") }));
    b.push(bind(sup, "m", Action::SetLayout { name: owned("monocle") }));
    b.push(bind(sup, "f", Action::SetLayout { name: owned("spiral") }));
    b.push(bind(sup_shift, "space", Action::ToggleFloating));
    b.push(bind(sup_shift, "f", Action::ToggleFullscreen));
    b.push(bind(sup, "grave", Action::ToggleScratchpad));
    b.push(bind(sup_ctrl, "u", Action::IncGaps { delta: 1 }));
    b.push(bind(sup_ctrl_shift, "u", Action::IncGaps { delta: -1 }));
    b.push(bind(sup_ctrl, "0", Action::ToggleGaps));
    b.push(bind(sup_shift, "q", Action::Quit));
    b.push(bind(sup_shift, "r", Action::ReloadConfig));
    b.push(bind(sup, "comma", Action::FocusMonitor { direction: -1 }));
    b.push(bind(sup, "period", Action::FocusMonitor { direction: 1 }));
    b.push(bind(none, "Print", Action::Screenshot));
    b.push(bind(sup, "Print", Action::ScreenshotSelect));
    b.push(bind(sup_shift, "Print", Action::ScreenshotSave));
    b.push(bind(sup_shift, "p", Action::ColorPicker));
    b.push(bind(sup_shift, "v", Action::ToggleRecording));
    assert(keybind_views(b@) =~= fixed_keybinds());
    b
}

/// The default key bindings (the dwm key table): the fixed bindings, then
/// for each tag 1 to 9 its view, move, toggle-view and toggle-client bindings.
pub fn default_keybinds() -> (binds: Vec<Keybind>)
    ensures
        keybind_views(binds@) == spec_default_keybinds(),
{
    let mut binds = fixed_binds();
    let sup: &[&str] = &["Super"];
    let sup_shift: &[&str] = &["Super", "Shift"];
    let sup_ctrl: &[&str] = &["Super", "Control"];
    let sup_ctrl_shift: &[&str] = &["Super", "Control", "Shift"];
    assert(sup@.map_values(|x: &str| x@) =~= m_sup());
    assert(sup_shift@.map_values(|x: &str| x@) =~= m_sup_shift());
    assert(sup_ctrl@.map_values(|x: &str| x@) =~= m_sup_ctrl());
    assert(sup_ctrl_shift@.map_values(|x: &str| x@) =~= m_sup_ctrl_shift());
    let mut i: u32 = 1;
    while i <= 9
        invariant
            1 <= i <= 10,
            sup@.map_values(|x: &str| x@) == m_sup(),
            sup_shift@.map_values(|x: &str| x@) == m_sup_shift(),
            sup_ctrl@.map_values(|x: &str| x@) == m_sup_ctrl(),
            sup_ctrl_shift@.map_values(|x: &str| x@) == m_sup_ctrl_shift(),
            keybind_views(binds@) == fixed_keybinds() + Seq::new((4 * (i - 1)) as nat, |j: int| tag_keybind(j / 4 + 1, j % 4)),
        decreases 10 - i,
    {
        let ghost before = binds@;
        let k0 = Keybind { modifiers: owned_list(sup), key: tag_digit(i), action: Action::ViewTag { tag: i } };
        let k1 = Keybind { modifiers: owned_list(sup_shift), key: tag_digit(i), action: Action::MoveToTag { tag: i } };
        let k2 = Keybind { modifiers: owned_list(sup_ctrl), key: tag_digit(i), action: Action::ToggleViewTag { tag: i } };
        let k3 = Keybind {
            modifiers: owned_list(sup_ctrl_shift),
            key: tag_digit(i),
            action: Action::ToggleClientTag { tag: i },
        };
        assert(k0@ == tag_keybind(i as int, 0));
        assert(k1@ == tag_keybind(i as int, 1));
        assert(k2@ == tag_keybind(i as int, 2));
        assert(k3@ == tag_keybind(i as int, 3));
        binds.push(k0);
        binds.push(k1);
        binds.push(k2);
        binds.push(k3);
        proof {
            let n = (4 * (i - 1)) as int;
            let f = |j: int| tag_keybind(j / 4 + 1, j % 4);
            let target = fixed_keybinds() + Seq::new((n + 4) as nat, f);
            let prev = fixed_keybinds() + Seq::new(n as nat, f);
            assert(binds@ == before.push(k0).push(k1).push(k2).push(k3));
            assert(keybind_views(before) == prev);
            assert(fixed_keybinds().len() == 33);
            assert(keybind_views(before).len() == before.len());
            assert(before.len() == 33 + n);
            assert forall|k: int| 0 <= k < 33 + n + 4 implies #[trigger] keybind_views(binds@)[k] == target[k] by {
                if k < 33 + n {
                    assert(binds@[k] == before[k]);
                    assert(keybind_views(before)[k] == prev[k]);
                    if k >= 33 {
                        assert(prev[k] == f(k - 33));
                        assert(target[k] == f(k - 33));
                    }
                } else {
                    let t = k - 33 - n;
                    lemma_div4(i - 1, t);
                    assert(target[k] == f(n + t));
                }
            }
            assert(keybind_views(binds@) =~= target);
        }
        i += 1;
    }
    binds
}

/// A window rule: windows matching class / instance / title go to a tag,
/// float or not, on a monitor.
#[derive(Debug, Clone)]
pub struct Rule {
    pub class: Option<String>,
    pub instance: Option<String>,
    pub title: Option<String>,
    /// Tag number (1-based) or 0 for inherit.
    pub tag: u32,
    pub floating: Option<bool>,
    pub monitor: Option<i32>,
}

/// An optional string seen as characters.
pub open spec fn opt_str(o: Option<String>) -> Option<Seq<char>> {
    match o {
        Some(s) => Some(s@),
        None => None,
    }
}

/// A rule with its strings seen as character sequences.
pub struct RuleView {
    pub class: Option<Seq<char>>,
    pub instance: Option<Seq<char>>,
    pub title: Option<Seq<char>>,
    pub tag: u32,
    pub floating: Option<bool>,
    pub monitor: Option<i32>,
}

impl View for Rule {
    type V = RuleView;

    open spec fn view(&self) -> RuleView {
        RuleView {
            class: opt_str(self.class),
            instance: opt_str(self.instance),
            title: opt_str(self.title),
            tag: self.tag,
            floating: self.floating,
            monitor: self.monitor,
        }
    }
}

/// A rule matching a window class, sending it to `tag`, floating or not.
pub open spec fn class_rule(class: Seq<char>, tag: u32, floating: bool) -> RuleView {
    RuleView { class: Some(class), instance: None, title: None, tag, floating: Some(floating), monitor: None }
}

/// The default rules: browsers on tag 3, security tools on 4, monitoring on
/// 5, messaging on 7, media on 8; Gimp and the event tester float.
pub open spec fn spec_default_rules() -> Seq<RuleView> {
    seq![
        class_rule("Firefox"@, 3, false),
        class_rule("Chromium"@, 3, false),
        class_rule("burp-StartBurp"@, 4, false),
        class_rule("Metasploit"@, 4, false),
        class_rule("Wireshark"@, 5, false),
        class_rule("discord"@, 7, false),
        class_rule("Signal"@, 7, false),
        class_rule("mpv"@, 8, false),
        class_rule("Gimp"@, 0, true),
        RuleView { class: None, instance: None, title: Some("Event Tester"@), tag: 0, floating: Some(true), monitor: None },
    ]
}

fn class_rule_of(class: &str, tag: u32, floating: bool) -> (r: Rule)
    ensures
        r@ == class_rule(class@, tag, floating),
{
    Rule { class: Some(owned(class)), instance: None, title: None, tag, floating: Some(floating), monitor: None }
}

/// The default window rules.
pub fn default_rules() -> (rules: Vec<Rule>)
    ensures
        rules@.map_values(|r: Rule| r@) == spec_default_rules(),
{
    let mut v: Vec<Rule> = Vec::new();
    v.push(class_rule_of("Firefox", 3, false));
    v.push(class_rule_of("Chromium", 3, false));
    v.push(class_rule_of("burp-StartBurp", 4, false));
    v.push(class_rule_of("Metasploit", 4, false));
    v.push(class_rule_of("Wireshark", 5, false));
    v.push(class_rule_of("discord", 7, false));
    v.push(class_rule_of("Signal", 7, false));
    v.push(class_rule_of("mpv", 8, false));
    v.push(class_rule_of("Gimp", 0, true));
    v.push(Rule {
        class: None,
        instance: None,
        title: Some(owned("Event Tester")),
        tag: 0,
        floating: Some(true),
        monitor: None,
    });
    assert(v@.map_values(|r: Rule| r@) =~= spec_default_rules());
    v
}

/// The whole configuration.
#[derive(Debug, Clone)]
pub struct Config {
    pub profile: Profile,
    pub appearance: Appearance,
    pub bar: BarConfig,
    pub tags: TagsConfig,
    pub keybinds: Vec<Keybind>,
    pub rules: Vec<Rule>,
    pub plugins: PluginConfig,
    pub scratchpad: ScratchpadConfig,
    pub compositor: CompositorConfig,
}

impl Default for Config {
    fn default() -> (c: Self)
        ensures
            c.profile == Profile::Pentester,
            c.appearance.is_default_for(Profile::Pentester),
            c.bar.is_default(),
            strs(c.tags.names@) == default_tag_names(),
            keybind_views(c.keybinds@) == spec_default_keybinds(),
            c.rules@.map_values(|r: Rule| r@) == spec_default_rules(),
            strs(c.plugins.lua_paths@) == seq!["~/.config/roguewm/plugins"@],
            c.plugins.lua_files@.len() == 0,
            c.scratchpad.name@ == "scratchpad"@,
            strs(c.scratchpad.cmd@) == seq!["st"@, "-t"@, "scratchpad"@],
            c.compositor.enabled,
            c.compositor.command@ == "picom"@,
            strs(c.compositor.args@) == seq!["--config"@, "/etc/xdg/picom/picom.conf"@],
    {
        let profile = Profile::default();
        Self {
            profile,
            appearance: Appearance::default_with_profile(profile),
            bar: BarConfig::default(),
            tags: TagsConfig::default(),
            keybinds: default_keybinds(),
            rules: default_rules(),
            plugins: PluginConfig::default(),
            scratchpad: ScratchpadConfig::default(),
            compositor: CompositorConfig::default(),
        }
    }
}

impl Config {
    /// Validate and sanitize: keep at most `MAX_TAGS` tag names; everything
    /// else is left as it is.
    pub fn validate(&mut self)
        ensures
            final(self).tags.names@ == if old(self).tags.names@.len() > MAX_TAGS {
                old(self).tags.names@.subrange(0, MAX_TAGS as int)
            } else {
                old(self).tags.names@
            },
            final(self).profile == old(self).profile,
            final(self).appearance == old(self).appearance,
            final(self).bar == old(self).bar,
            final(self).keybinds == old(self).keybinds,
            final(self).rules == old(self).rules,
            final(self).plugins == old(self).plugins,
            final(self).scratchpad == old(self).scratchpad,
            final(self).compositor == old(self).compositor,
    {
        if self.tags.names.len() > MAX_TAGS {
            self.tags.names.truncate(MAX_TAGS);
        }
    }

    /// A configuration as read from a file: the colours follow the configured
    /// profile, then it is validated.
    pub fn finish_load(self) -> (c: Config)
        ensures
            c.appearance.colors.is_for_profile(self.profile),
            c.profile == self.profile,
            c.appearance.font == self.appearance.font,
            c.appearance.border_width == self.appearance.border_width,
            c.appearance.snap == self.appearance.snap,
            c.appearance.gaps == self.appearance.gaps,
            c.tags.names@ == if self.tags.names@.len() > MAX_TAGS {
                self.tags.names@.subrange(0, MAX_TAGS as int)
            } else {
                self.tags.names@
            },
            c.bar == self.bar,
            c.keybinds == self.keybinds,
            c.rules == self.rules,
            c.plugins == self.plugins,
            c.scratchpad == self.scratchpad,
            c.compositor == self.compositor,
    {
        let mut cfg = self;
        cfg.appearance.colors = ColorConfig::for_profile(cfg.profile);
        cfg.validate();
        cfg
    }
}

} // verus!

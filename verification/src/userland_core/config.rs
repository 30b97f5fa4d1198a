//! Config: transparency, corner_radius, shortcuts. Mandatory; adjust via shortcuts only.

use vstd::prelude::*;

verus! {

/// Transparency 0..=255 (255 = opaque).
pub type Transparency = u8;

/// Corner radius in px.
pub type CornerRadius = u32;

#[derive(Clone, Copy, Debug)]
pub struct TransparencyRange {
    pub default: Transparency,
    pub min: Transparency,
    pub max: Transparency,
}

impl Default for TransparencyRange {
    fn default() -> (r: Self)
        ensures
            r.default == 255 && r.min == 128 && r.max == 255,
    {
        Self { default: 255, min: 128, max: 255 }
    }
}

#[derive(Clone, Copy, Debug)]
pub struct CornerRadiusRange {
    pub default: CornerRadius,
    pub min: CornerRadius,
    pub max: CornerRadius,
}

impl Default for CornerRadiusRange {
    fn default() -> (r: Self)
        ensures
            r.default == 8 && r.min == 0 && r.max == 24,
    {
        Self { default: 8, min: 0, max: 24 }
    }
}

/// The configurable shortcut actions, in the order of `Config::shortcuts`.
#[derive(Clone, Copy, Debug, PartialEq, Eq, Structural)]
pub enum ShortcutAction {
    IncreaseTransparency,
    DecreaseTransparency,
    IncreaseCornerRadius,
    DecreaseCornerRadius,
    Screenshot,
    Lock,
    ClipboardPaste,
    FocusLeft,
    FocusRight,
    Confirm,
    Exit,
}

/// Number of shortcut actions.
pub const SHORTCUT_COUNT: usize = 11;

impl ShortcutAction {
    /// Position of the action in the shortcut table.
    pub open spec fn spec_index(self) -> int {
        match self {
            ShortcutAction::IncreaseTransparency => 0,
            ShortcutAction::DecreaseTransparency => 1,
            ShortcutAction::IncreaseCornerRadius => 2,
            ShortcutAction::DecreaseCornerRadius => 3,
            ShortcutAction::Screenshot => 4,
            ShortcutAction::Lock => 5,
            ShortcutAction::ClipboardPaste => 6,
            ShortcutAction::FocusLeft => 7,
            ShortcutAction::FocusRight => 8,
            ShortcutAction::Confirm => 9,
            ShortcutAction::Exit => 10,
        }
    }

    /// Position of the action in the shortcut table (its discriminant).
    pub fn index(self) -> (r: usize)
        ensures
            r == self.spec_index(),
            r < SHORTCUT_COUNT,
    {
        match self {
            ShortcutAction::IncreaseTransparency => 0,
            ShortcutAction::DecreaseTransparency => 1,
            ShortcutAction::IncreaseCornerRadius => 2,
            ShortcutAction::DecreaseCornerRadius => 3,
            ShortcutAction::Screenshot => 4,
            ShortcutAction::Lock => 5,
            ShortcutAction::ClipboardPaste => 6,
            ShortcutAction::FocusLeft => 7,
            ShortcutAction::FocusRight => 8,
            ShortcutAction::Confirm => 9,
            ShortcutAction::Exit => 10,
        }
    }

    /// The action at a table position.
    pub fn at_index(i: usize) -> (a: ShortcutAction)
        requires
            i < SHORTCUT_COUNT,
        ensures
            a.spec_index() == i,
    {
        if i == 0 { ShortcutAction::IncreaseTransparency }
        else if i == 1 { ShortcutAction::DecreaseTransparency }
        else if i == 2 { ShortcutAction::IncreaseCornerRadius }
        else if i == 3 { ShortcutAction::DecreaseCornerRadius }
        else if i == 4 { ShortcutAction::Screenshot }
        else if i == 5 { ShortcutAction::Lock }
        else if i == 6 { ShortcutAction::ClipboardPaste }
        else if i == 7 { ShortcutAction::FocusLeft }
        else if i == 8 { ShortcutAction::FocusRight }
        else if i == 9 { ShortcutAction::Confirm }
        else { ShortcutAction::Exit }
    }
}

#[derive(Clone, Debug)]
pub struct Config {
    pub transparency: TransparencyRange,
    pub corner_radius: CornerRadiusRange,
    pub shortcuts: [u8; 11],
}

impl Default for Config {
    fn default() -> (r: Self)
        ensures
            r.transparency.default == 255 && r.transparency.min == 128 && r.transparency.max == 255,
            r.corner_radius.default == 8 && r.corner_radius.min == 0 && r.corner_radius.max == 24,
            forall|i: int| 0 <= i < 11 ==> r.shortcuts[i] == 0,
    {
        Self {
            transparency: TransparencyRange::default(),
            corner_radius: CornerRadiusRange::default(),
            shortcuts: [0; 11],
        }
    }
}

/// `v` clamped to `[lo, hi]`.
pub open spec fn spec_clamp(v: int, lo: int, hi: int) -> int {
    if v < lo { lo } else if v > hi { hi } else { v }
}

impl Config {
    /// The configured ranges are not empty.
    pub open spec fn ranges_ok(&self) -> bool {
        &&& self.transparency.min <= self.transparency.max
        &&& self.corner_radius.min <= self.corner_radius.max
    }

    pub open spec fn spec_key_for(&self, action: ShortcutAction) -> u8 {
        self.shortcuts[action.spec_index()]
    }

    pub fn clamp_transparency(&self, v: Transparency) -> (r: Transparency)
        requires
            self.transparency.min <= self.transparency.max,
        ensures
            r == spec_clamp(v as int, self.transparency.min as int, self.transparency.max as int),
    {
        if v < self.transparency.min {
            self.transparency.min
        } else if v > self.transparency.max {
            self.transparency.max
        } else {
            v
        }
    }

    pub fn clamp_corner_radius(&self, v: CornerRadius) -> (r: CornerRadius)
        requires
            self.corner_radius.min <= self.corner_radius.max,
        ensures
            r == spec_clamp(v as int, self.corner_radius.min as int, self.corner_radius.max as int),
    {
        if v < self.corner_radius.min {
            self.corner_radius.min
        } else if v > self.corner_radius.max {
            self.corner_radius.max
        } else {
            v
        }
    }

    pub fn key_for(&self, action: ShortcutAction) -> (r: u8)
        ensures
            r == self.spec_key_for(action),
    {
        let i = action.index();
        if i < self.shortcuts.len() { self.shortcuts[i] } else { 0 }
    }
}

/// Clamping lands inside a non-empty range and leaves values inside it unchanged.
pub proof fn lemma_clamp_in_range(v: int, lo: int, hi: int)
    requires
        lo <= hi,
    ensures
        lo <= spec_clamp(v, lo, hi) <= hi,
        lo <= v <= hi ==> spec_clamp(v, lo, hi) == v,
        spec_clamp(spec_clamp(v, lo, hi), lo, hi) == spec_clamp(v, lo, hi),
{
}

} // verus!

//! The discrete part of a configuration: resolutions, where renders go, and
//! which key does what.

use vstd::prelude::*;
use vstd::string::*;

verus! {

/// The size of a raster in pixels.
#[derive(Debug, Copy, Clone, PartialEq, Eq, Structural)]
pub struct Resolution {
    pub width: usize,
    pub height: usize,
}

/// How still images are rendered.
#[derive(Debug)]
pub struct RenderConfig {
    pub resolution: Resolution,
    /// The directory that receives the images.
    pub directory: String,
}

impl Clone for RenderConfig {
    fn clone(&self) -> (copy: RenderConfig)
        ensures
            copy.resolution == self.resolution,
            copy.directory@ == self.directory@,
    {
        RenderConfig { resolution: self.resolution, directory: self.directory.clone() }
    }
}

impl Default for RenderConfig {
    /// Renders of 3840 by 2160 pixels, written to `renders`.
    fn default() -> (config: RenderConfig)
        ensures
            config.resolution == (Resolution { width: 3840, height: 2160 }),
            config.directory@ == "renders"@,
    {
        RenderConfig {
            resolution: Resolution { width: 3840, height: 2160 },
            directory: "renders".to_owned(),
        }
    }
}

/// A key of the keyboard, by its key code.
#[derive(Debug, Copy, Clone, PartialEq, Eq, Structural)]
pub struct Key {
    pub code: i32,
}

/// What a key press asks of an interactive view.
#[derive(Debug, Copy, Clone, PartialEq, Eq, Structural)]
pub enum Action {
    ZoomIn,
    ZoomOut,
    Up,
    Left,
    Down,
    Right,
    Render,
}

/// The keys of an interactive view.
#[derive(Debug, Copy, Clone, PartialEq, Eq, Structural)]
pub struct PreviewKeysConfig {
    pub up: Key,
    pub right: Key,
    pub down: Key,
    pub left: Key,
    pub zoom_in: Key,
    pub zoom_out: Key,
    pub render: Key,
}

/// The key codes of the letters and arrows that the default bindings use.
pub const KEY_A: i32 = 97;

pub const KEY_D: i32 = 100;

pub const KEY_R: i32 = 114;

pub const KEY_S: i32 = 115;

pub const KEY_W: i32 = 119;

pub const KEY_DOWN: i32 = 1073741905;

pub const KEY_UP: i32 = 1073741906;

impl Default for PreviewKeysConfig {
    /// W, A, S and D move the view, the arrows up and down zoom in and out,
    /// and R renders.
    fn default() -> (keys: PreviewKeysConfig)
        ensures
            keys == (PreviewKeysConfig {
                up: Key { code: KEY_W },
                right: Key { code: KEY_D },
                down: Key { code: KEY_S },
                left: Key { code: KEY_A },
                zoom_in: Key { code: KEY_UP },
                zoom_out: Key { code: KEY_DOWN },
                render: Key { code: KEY_R },
            }),
    {
        PreviewKeysConfig {
            up: Key { code: KEY_W },
            right: Key { code: KEY_D },
            down: Key { code: KEY_S },
            left: Key { code: KEY_A },
            zoom_in: Key { code: KEY_UP },
            zoom_out: Key { code: KEY_DOWN },
            render: Key { code: KEY_R },
        }
    }
}

impl Key {
    /// Whether this is the key with the given code.
    pub fn matches(&self, code: i32) -> (same: bool)
        ensures
            same == (self.code == code),
    {
        self.code == code
    }
}

impl PreviewKeysConfig {
    /// The action that a key code stands for. Where one key is bound to
    /// several actions, zooming goes before moving and moving before
    /// rendering: zoom in, zoom out, up, left, down, right, render.
    pub open spec fn action_of(self, code: i32) -> Option<Action> {
        if self.zoom_in.code == code {
            Some(Action::ZoomIn)
        } else if self.zoom_out.code == code {
            Some(Action::ZoomOut)
        } else if self.up.code == code {
            Some(Action::Up)
        } else if self.left.code == code {
            Some(Action::Left)
        } else if self.down.code == code {
            Some(Action::Down)
        } else if self.right.code == code {
            Some(Action::Right)
        } else if self.render.code == code {
            Some(Action::Render)
        } else {
            None
        }
    }

    /// Tells what the release of a key asks for, if anything.
    pub fn action(&self, code: i32) -> (action: Option<Action>)
        ensures
            action == self.action_of(code),
    {
        if self.zoom_in.matches(code) {
            Some(Action::ZoomIn)
        } else if self.zoom_out.matches(code) {
            Some(Action::ZoomOut)
        } else if self.up.matches(code) {
            Some(Action::Up)
        } else if self.left.matches(code) {
            Some(Action::Left)
        } else if self.down.matches(code) {
            Some(Action::Down)
        } else if self.right.matches(code) {
            Some(Action::Right)
        } else if self.render.matches(code) {
            Some(Action::Render)
        } else {
            None
        }
    }
}

impl Action {
    /// The direction of a move, in steps along x and y, with y growing
    /// downwards; `(0, 0)` for an action that does not move the view.
    pub open spec fn direction_of(self) -> (int, int) {
        match self {
            Action::Up => (0, -1),
            Action::Left => (-1, 0),
            Action::Down => (0, 1),
            Action::Right => (1, 0),
            _ => (0, 0),
        }
    }

    /// The direction in which the action moves the view.
    pub fn direction(self) -> (steps: (i8, i8))
        ensures
            (steps.0 as int, steps.1 as int) == self.direction_of(),
    {
        match self {
            Action::Up => (0, -1),
            Action::Left => (-1, 0),
            Action::Down => (0, 1),
            Action::Right => (1, 0),
            _ => (0, 0),
        }
    }
}

} // verus!

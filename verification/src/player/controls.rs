//! The buttons over the picture.

use vstd::prelude::*;

verus! {

#[derive(Clone, Copy, Debug, PartialEq, Eq, Structural)]
pub enum PlayerGuiAction {
    ToggleFullscreen,
}

#[derive(Clone, Copy, Debug, PartialEq, Eq, Structural)]
pub enum PointerButton {
    Primary,
    Secondary,
    Middle,
    Extra1,
    Extra2,
}

/// What the buttons and the texts beside them show.
#[derive(Clone, Copy, Debug)]
pub struct PlayerGuiView<'a> {
    pub fullscreen: bool,
    pub status: Option<&'a str>,
    pub diagnostics: &'a str,
}

/// What the buttons switch by themselves.
#[derive(Clone, Copy, Debug, PartialEq, Eq, Structural)]
pub struct PlayerControls {
    pub diagnostics_visible: bool,
}

impl Default for PlayerControls {
    fn default() -> (controls: Self)
        ensures
            !controls.diagnostics_visible,
    {
        PlayerControls { diagnostics_visible: false }
    }
}

impl PlayerControls {
    /// What the clicks in one frame ask for. The diagnostics are switched at once.
    pub fn clicked(&mut self, fullscreen: bool, diagnostics: bool) -> (action: Option<
        PlayerGuiAction,
    >)
        ensures
            final(self).diagnostics_visible == (old(self).diagnostics_visible != diagnostics),
            action == if fullscreen {
                Some(PlayerGuiAction::ToggleFullscreen)
            } else {
                None
            },
    {
        if diagnostics {
            self.diagnostics_visible = !self.diagnostics_visible;
        }
        if fullscreen {
            Some(PlayerGuiAction::ToggleFullscreen)
        } else {
            None
        }
    }
}

} // verus!

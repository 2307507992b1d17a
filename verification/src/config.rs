use vstd::prelude::*;

verus! {

/// The settings of the window manager. Sizes are given as width, height.
pub struct Config {
    /// How many workspaces there are.
    pub workspaces: usize,
    /// The gap between tiled windows, and between them and the screen's edge.
    pub gaps: usize,
    /// The border colour of the focused window.
    pub focused_border: String,
    /// The border colour of every other window.
    pub unfocused_border: String,
    /// The height kept free for the panel.
    pub panel_width: usize,
    /// The size of a scratchpad window on display.
    pub scratchpad_size: (usize, usize),
    /// The size of the screen.
    pub workspace_size: (usize, usize),
}

/// The settings as contracts see them.
pub struct ConfigView {
    pub workspaces: int,
    pub gaps: int,
    pub focused_border: Seq<char>,
    pub unfocused_border: Seq<char>,
    pub panel_width: int,
    pub scratchpad_size: (int, int),
    pub workspace_size: (int, int),
}

impl View for Config {
    type V = ConfigView;

    open spec fn view(&self) -> ConfigView {
        ConfigView {
            workspaces: self.workspaces as int,
            gaps: self.gaps as int,
            focused_border: self.focused_border@,
            unfocused_border: self.unfocused_border@,
            panel_width: self.panel_width as int,
            scratchpad_size: (self.scratchpad_size.0 as int, self.scratchpad_size.1 as int),
            workspace_size: (self.workspace_size.0 as int, self.workspace_size.1 as int),
        }
    }
}

impl ConfigView {
    /// A scratchpad window is no wider and no higher than the screen, so
    /// that it can be centred on it.
    pub open spec fn scratchpad_fits(self) -> bool {
        self.scratchpad_size.0 <= self.workspace_size.0 && self.scratchpad_size.1
            <= self.workspace_size.1
    }
}

impl Config {
    /// Whether a scratchpad window can be centred on the screen.
    pub fn scratchpad_fits(&self) -> (fits: bool)
        ensures
            fits == self@.scratchpad_fits(),
    {
        self.scratchpad_size.0 <= self.workspace_size.0 && self.scratchpad_size.1
            <= self.workspace_size.1
    }
}

} // verus!

use vstd::prelude::*;

verus! {

/// The screens of the game.
#[derive(Clone, Copy, PartialEq, Eq, Hash, Debug, Structural)]
pub enum Screen {
    Main,
    Help,
    Gameplay,
}

impl Default for Screen {
    /// The game starts on the main screen.
    fn default() -> (s: Screen)
        ensures
            s == Screen::Main,
    {
        Screen::Main
    }
}

/// What pressing escape on the help screen does.
#[derive(Clone, Copy, PartialEq, Eq, Debug, Structural)]
pub enum EscapeAction {
    /// Close the tooltip that was opened last.
    CloseTooltip,
    /// Leave for the given screen.
    Leave(Screen),
}

impl Screen {
    /// The screen after "Play" was chosen: gameplay once every level image
    /// and the font are loaded, else the screen stays.
    pub fn go_to_play(self, levels_loaded: bool, font_loaded: bool) -> (next: Screen)
        ensures
            next == if levels_loaded && font_loaded {
                Screen::Gameplay
            } else {
                self
            },
    {
        if levels_loaded && font_loaded {
            Screen::Gameplay
        } else {
            self
        }
    }

    /// The screen after "Help" was chosen.
    pub fn go_to_help(self) -> (next: Screen)
        ensures
            next == Screen::Help,
    {
        Screen::Help
    }
}

/// Escape on the help screen closes the open tooltips one by one, the last
/// opened first, and with none open leads back to the main screen.
pub fn handle_escape_help(open_tooltips: usize) -> (action: EscapeAction)
    ensures
        action == if open_tooltips > 0 {
            EscapeAction::CloseTooltip
        } else {
            EscapeAction::Leave(Screen::Main)
        },
{
    if open_tooltips > 0 {
        EscapeAction::CloseTooltip
    } else {
        EscapeAction::Leave(Screen::Main)
    }
}

} // verus!

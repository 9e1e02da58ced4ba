//! The quit-confirmation screen: y or n (either case) decides; the decision
//! is not consumed by polling, so every later poll repeats the same
//! transition until the screen is popped.

use vstd::prelude::*;

use crate::menu::Key;
use crate::menu::MenuOptions;

verus! {

/// The confirmation state.
#[derive(Clone, Copy, Debug, PartialEq, Eq, Structural)]
pub enum QuitMenu {
    Undecided,
    Yes,
    No,
}

impl Default for QuitMenu {
    /// A fresh confirmation screen has nothing decided.
    fn default() -> (r: Self)
        ensures
            r == QuitMenu::Undecided,
    {
        QuitMenu::Undecided
    }
}

/// The state after one key press: y confirms, n declines, anything else
/// changes nothing.
pub open spec fn quit_menu_step(m: QuitMenu, k: Key) -> QuitMenu {
    match k {
        Key::Char(c) => {
            if c == 'y' || c == 'Y' {
                QuitMenu::Yes
            } else if c == 'n' || c == 'N' {
                QuitMenu::No
            } else {
                m
            }
        },
        _ => m,
    }
}

/// What polling yields: nothing while undecided, exit once confirmed, go
/// back once declined.
pub open spec fn quit_poll(m: QuitMenu, r: Option<MenuOptions>) -> bool {
    match m {
        QuitMenu::Undecided => r is None,
        QuitMenu::Yes => r matches Some(MenuOptions::Exit),
        QuitMenu::No => r matches Some(MenuOptions::GoBack),
    }
}

impl QuitMenu {
    /// Consume one key press.
    pub fn handle_input(&mut self, input: Key)
        ensures
            *final(self) == quit_menu_step(*old(self), input),
    {
        match input {
            Key::Char(x) => {
                if x == 'y' || x == 'Y' {
                    *self = QuitMenu::Yes;
                } else if x == 'n' || x == 'N' {
                    *self = QuitMenu::No;
                }
            },
            _ => {},
        }
    }

    /// Report the transition of the current decision, keeping the decision.
    pub fn is_done(&mut self) -> (r: Option<MenuOptions>)
        ensures
            *final(self) == *old(self),
            quit_poll(*old(self), r),
    {
        match self {
            QuitMenu::Undecided => None,
            QuitMenu::Yes => Some(MenuOptions::Exit),
            QuitMenu::No => Some(MenuOptions::GoBack),
        }
    }
}

} // verus!

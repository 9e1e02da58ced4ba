//! The entry screen: one key chooses to play, edit, create or quit. The
//! choice is consumed by the next poll. Play and edit have no behaviour in
//! this program yet; rather than fail silently, polling them pushes an
//! explicit "unavailable" notice screen.

use vstd::prelude::*;

use crate::edit_menu::EditMenu;
use crate::menu::Key;
use crate::menu::Menu;
use crate::menu::MenuOptions;
use crate::menu::UnavailableMenu;

verus! {

/// A choice offered by the main menu.
#[derive(Clone, Copy, Debug, PartialEq, Eq, Structural)]
pub enum MainMenuState {
    Play,
    Edit,
    Create,
    Quit,
}

/// The main menu: at most one pending choice.
#[derive(Clone, Copy, Debug, PartialEq, Eq, Structural)]
pub struct MainMenu {
    pub selected_tool: Option<MainMenuState>,
}

/// The state after one key press: the letters p, e, c and q (either case)
/// select a choice; any other key leaves the menu as it was.
pub open spec fn main_menu_step(m: MainMenu, k: Key) -> MainMenu {
    match k {
        Key::Char(c) => {
            if c == 'p' || c == 'P' {
                MainMenu { selected_tool: Some(MainMenuState::Play) }
            } else if c == 'e' || c == 'E' {
                MainMenu { selected_tool: Some(MainMenuState::Edit) }
            } else if c == 'c' || c == 'C' {
                MainMenu { selected_tool: Some(MainMenuState::Create) }
            } else if c == 'q' || c == 'Q' {
                MainMenu { selected_tool: Some(MainMenuState::Quit) }
            } else {
                m
            }
        },
        _ => m,
    }
}

/// What polling yields for each pending choice: create pushes a fresh
/// editor, quit exits, play and edit push the unavailable notice, and no
/// pending choice yields nothing.
pub open spec fn main_poll(m: MainMenu, r: Option<MenuOptions>) -> bool {
    match m.selected_tool {
        None => r is None,
        Some(MainMenuState::Play) => r == Some(
            MenuOptions::Continue(Menu::Unavailable(UnavailableMenu { dismissed: false })),
        ),
        Some(MainMenuState::Edit) => r == Some(
            MenuOptions::Continue(Menu::Unavailable(UnavailableMenu { dismissed: false })),
        ),
        Some(MainMenuState::Create) => r matches Some(MenuOptions::Continue(Menu::Edit(e)))
            && e.is_fresh(),
        Some(MainMenuState::Quit) => r matches Some(MenuOptions::Exit),
    }
}

impl MainMenu {
    /// A main menu with nothing chosen yet.
    pub fn new() -> (r: Self)
        ensures
            r == (MainMenu { selected_tool: None::<MainMenuState> }),
    {
        Self { selected_tool: None }
    }

    /// Consume one key press.
    pub fn handle_input(&mut self, input: Key)
        ensures
            *final(self) == main_menu_step(*old(self), input),
    {
        match input {
            Key::Char(x) => {
                if x == 'p' || x == 'P' {
                    self.selected_tool = Some(MainMenuState::Play);
                } else if x == 'e' || x == 'E' {
                    self.selected_tool = Some(MainMenuState::Edit);
                } else if x == 'c' || x == 'C' {
                    self.selected_tool = Some(MainMenuState::Create);
                } else if x == 'q' || x == 'Q' {
                    self.selected_tool = Some(MainMenuState::Quit);
                }
            },
            _ => {},
        }
    }

    /// Report the transition for the pending choice, consuming it: the
    /// choice acts exactly once, whatever it was.
    pub fn is_done(&mut self) -> (r: Option<MenuOptions>)
        ensures
            *final(self) == (MainMenu { selected_tool: None::<MainMenuState> }),
            main_poll(*old(self), r),
    {
        let sel = self.selected_tool;
        self.selected_tool = None;
        match sel {
            None => None,
            Some(MainMenuState::Play) => Some(
                MenuOptions::Continue(Menu::Unavailable(UnavailableMenu::new())),
            ),
            Some(MainMenuState::Edit) => Some(
                MenuOptions::Continue(Menu::Unavailable(UnavailableMenu::new())),
            ),
            Some(MainMenuState::Create) => Some(MenuOptions::Continue(Menu::Edit(EditMenu::default()))),
            Some(MainMenuState::Quit) => Some(MenuOptions::Exit),
        }
    }
}

} // verus!

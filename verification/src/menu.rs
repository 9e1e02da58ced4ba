//! The navigable screens, the key events they consume, and the stack
//! transitions they request.

use vstd::prelude::*;

use crate::edit_menu::EditMenu;
use crate::edit_menu::edit_step_rel;
use crate::main_menu::MainMenu;
use crate::main_menu::MainMenuState;
use crate::main_menu::main_menu_step;
use crate::main_menu::main_poll;
use crate::quit_menu::QuitMenu;
use crate::quit_menu::quit_menu_step;
use crate::quit_menu::quit_poll;

verus! {

/// One key press, as the host loop hands it to a screen.
#[derive(Clone, Copy, Debug, PartialEq, Eq, Structural)]
pub enum Key {
    Char(char),
    Up,
    Down,
    Left,
    Right,
    Other,
}

/// The stack transition a screen requests once it is done.
pub enum MenuOptions {
    GoBack,
    BackToFirst,
    Continue(Menu),
    Exit,
}

/// A placeholder screen for choices whose behaviour does not exist yet: it
/// announces itself and goes back on the next key press.
#[derive(Clone, Copy, Debug, PartialEq, Eq, Structural)]
pub struct UnavailableMenu {
    pub dismissed: bool,
}

impl UnavailableMenu {
    pub fn new() -> (r: Self)
        ensures
            r == (UnavailableMenu { dismissed: false }),
    {
        UnavailableMenu { dismissed: false }
    }

    /// Any key dismisses the notice.
    pub fn handle_input(&mut self, input: Key)
        ensures
            *final(self) == (UnavailableMenu { dismissed: true }),
    {
        let _ = input;
        self.dismissed = true;
    }

    pub fn is_done(&mut self) -> (r: Option<MenuOptions>)
        ensures
            *final(self) == *old(self),
            unavailable_poll(*old(self), r),
    {
        if self.dismissed {
            Some(MenuOptions::GoBack)
        } else {
            None
        }
    }
}

pub open spec fn unavailable_step(m: UnavailableMenu, k: Key) -> UnavailableMenu {
    UnavailableMenu { dismissed: true }
}

pub open spec fn unavailable_poll(m: UnavailableMenu, r: Option<MenuOptions>) -> bool {
    if m.dismissed {
        r matches Some(MenuOptions::GoBack)
    } else {
        r is None
    }
}

/// One navigable screen. Each variant carries its own state; all of them
/// consume key presses and report a pending transition when polled.
pub enum Menu {
    Main(MainMenu),
    Quit(QuitMenu),
    Edit(EditMenu),
    Unavailable(UnavailableMenu),
}

/// How a screen's state moves under one key press.
pub open spec fn menu_step_rel(o: Menu, n: Menu, k: Key) -> bool {
    match o {
        Menu::Main(x) => n == Menu::Main(main_menu_step(x, k)),
        Menu::Quit(x) => n == Menu::Quit(quit_menu_step(x, k)),
        Menu::Unavailable(x) => n == Menu::Unavailable(unavailable_step(x, k)),
        Menu::Edit(x) => n matches Menu::Edit(y) && edit_step_rel(x, y, k),
    }
}

/// What polling a screen yields, and what it leaves behind: the main menu
/// consumes its selection; every other screen is left unchanged, so its
/// transition stands until the stack applies it.
pub open spec fn menu_poll_rel(o: Menu, n: Menu, r: Option<MenuOptions>) -> bool {
    match o {
        Menu::Main(x) => n == Menu::Main(MainMenu { selected_tool: None::<MainMenuState> })
            && main_poll(x, r),
        Menu::Quit(x) => n == o && quit_poll(x, r),
        Menu::Unavailable(x) => n == o && unavailable_poll(x, r),
        Menu::Edit(_) => n == o && r is None,
    }
}

impl Menu {
    /// A screen is well formed when its editor state, if any, is.
    pub open spec fn wf(self) -> bool {
        match self {
            Menu::Edit(e) => e.wf(),
            _ => true,
        }
    }

    /// Forward one key press to the screen.
    pub fn handle_input(&mut self, input: Key)
        requires
            old(self).wf(),
        ensures
            final(self).wf(),
            menu_step_rel(*old(self), *final(self), input),
    {
        match self {
            Menu::Main(m) => m.handle_input(input),
            Menu::Quit(m) => m.handle_input(input),
            Menu::Edit(m) => m.handle_input(input),
            Menu::Unavailable(m) => m.handle_input(input),
        }
    }

    /// Poll the screen for a pending transition.
    pub fn is_done(&mut self) -> (r: Option<MenuOptions>)
        requires
            old(self).wf(),
        ensures
            final(self).wf(),
            menu_poll_rel(*old(self), *final(self), r),
    {
        match self {
            Menu::Main(m) => m.is_done(),
            Menu::Quit(m) => m.is_done(),
            Menu::Edit(m) => m.is_done(),
            Menu::Unavailable(m) => m.is_done(),
        }
    }
}

} // verus!

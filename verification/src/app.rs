//! The screen stack: a non-empty stack of screens whose last element is
//! active. Each round the host forwards one key press to the active screen,
//! polls it, and applies the transition it requested, if any. The bottom
//! screen is always the main menu, which never asks to go back, so the stack
//! never empties.

use vstd::prelude::*;

use crate::main_menu::MainMenu;
use crate::menu::Key;
use crate::menu::Menu;
use crate::menu::MenuOptions;
use crate::menu::menu_poll_rel;
use crate::menu::menu_step_rel;

verus! {

/// The stack of screens and the stop flag the host loop watches.
pub struct App {
    pub should_exit: bool,
    pub menus: Vec<Menu>,
}

/// How one poll-and-apply round moves the stack: the active screen turns
/// into `m2` yielding transition `r`, and the stack then pops, pops to the
/// root, pushes, or sets the stop flag accordingly.
pub open spec fn app_step_rel(o: App, n: App, m2: Menu, r: Option<MenuOptions>) -> bool {
    let mid = o.menus@.update(o.menus@.len() - 1, m2);
    &&& menu_poll_rel(o.menus@.last(), m2, r)
    &&& match r {
        None => n.menus@ == mid && n.should_exit == o.should_exit,
        Some(MenuOptions::GoBack) => n.menus@ == mid.take(mid.len() - 1) && n.should_exit
            == o.should_exit,
        Some(MenuOptions::BackToFirst) => n.menus@ == mid.take(1) && n.should_exit
            == o.should_exit,
        Some(MenuOptions::Continue(m)) => n.menus@ == mid.push(m) && n.should_exit
            == o.should_exit,
        Some(MenuOptions::Exit) => n.menus@ == mid && n.should_exit == true,
    }
}

impl App {
    /// A well-formed stack: never empty, the main menu at the bottom, and
    /// every screen on it well formed.
    pub open spec fn wf(self) -> bool {
        &&& self.menus@.len() >= 1
        &&& self.menus@[0] matches Menu::Main(_)
        &&& forall|i: int| 0 <= i < self.menus@.len() ==> (#[trigger] self.menus@[i]).wf()
    }

    /// A fresh application: the main menu alone, not stopping.
    pub fn new() -> (r: Self)
        ensures
            r.wf(),
            !r.should_exit,
            r.menus@.len() == 1,
            r.menus@[0] == Menu::Main(MainMenu { selected_tool: None }),
    {
        let mut menus: Vec<Menu> = Vec::new();
        menus.push(Menu::Main(MainMenu::new()));
        Self { should_exit: false, menus }
    }

    /// The number of screens on the stack.
    pub fn depth(&self) -> (r: usize)
        ensures
            r == self.menus@.len(),
    {
        self.menus.len()
    }

    /// Borrow the active screen.
    pub fn active(&self) -> (r: &Menu)
        requires
            self.wf(),
        ensures
            *r == self.menus@.last(),
    {
        let last = self.menus.len() - 1;
        &self.menus[last]
    }
}

impl Default for App {
    /// The same fresh application `new` builds.
    fn default() -> (r: Self)
        ensures
            r.wf(),
            !r.should_exit,
            r.menus@.len() == 1,
            r.menus@[0] == Menu::Main(MainMenu { selected_tool: None }),
    {
        Self::new()
    }
}

impl App {
    /// Forward one key press to the active screen; the rest of the stack is
    /// inert.
    pub fn handle_key(&mut self, key: Key)
        requires
            old(self).wf(),
        ensures
            final(self).wf(),
            final(self).should_exit == old(self).should_exit,
            final(self).menus@.len() == old(self).menus@.len(),
            forall|i: int|
                0 <= i < old(self).menus@.len() - 1 ==> final(self).menus@[i] == old(
                    self,
                ).menus@[i],
            menu_step_rel(old(self).menus@.last(), final(self).menus@.last(), key),
    {
        let last = self.menus.len() - 1;
        let m = &mut self.menus[last];
        m.handle_input(key);
        proof {
            assert(self.menus@ == old(self).menus@.update(last as int, self.menus@[last as int]));
            assert forall|i: int| 0 <= i < self.menus@.len() implies (
            #[trigger] self.menus@[i]).wf() by {}
            assert(self.menus@[0] matches Menu::Main(_));
        }
    }

    /// Apply one transition to the stack. Going back is only allowed above
    /// the root screen; going back to the root on a stack of one screen
    /// changes nothing, and on any stack it leaves exactly one screen.
    pub fn apply_transition(&mut self, t: MenuOptions)
        requires
            old(self).wf(),
            t matches MenuOptions::GoBack ==> old(self).menus@.len() >= 2,
            t matches MenuOptions::Continue(m) ==> m.wf(),
        ensures
            final(self).wf(),
            match t {
                MenuOptions::GoBack => {
                    &&& final(self).menus@ == old(self).menus@.take(old(self).menus@.len() - 1)
                    &&& final(self).should_exit == old(self).should_exit
                },
                MenuOptions::BackToFirst => {
                    &&& final(self).menus@ == old(self).menus@.take(1)
                    &&& final(self).should_exit == old(self).should_exit
                },
                MenuOptions::Continue(m) => {
                    &&& final(self).menus@ == old(self).menus@.push(m)
                    &&& final(self).should_exit == old(self).should_exit
                },
                MenuOptions::Exit => {
                    &&& final(self).menus@ == old(self).menus@
                    &&& final(self).should_exit
                },
            },
    {
        match t {
            MenuOptions::GoBack => {
                let _ = self.menus.pop();
            },
            MenuOptions::BackToFirst => {
                while self.menus.len() > 1
                    invariant
                        1 <= self.menus@.len() <= old(self).menus@.len(),
                        self.menus@ == old(self).menus@.take(self.menus@.len() as int),
                        self.should_exit == old(self).should_exit,
                    decreases self.menus@.len(),
                {
                    let _ = self.menus.pop();
                    proof {
                        assert(self.menus@ =~= old(self).menus@.take(self.menus@.len() as int));
                    }
                }
            },
            MenuOptions::Continue(m) => {
                self.menus.push(m);
            },
            MenuOptions::Exit => {
                self.should_exit = true;
            },
        }
        proof {
            assert(old(self).menus@.take(old(self).menus@.len() as int) =~= old(self).menus@);
        }
    }

    /// Poll the active screen once and apply the transition it requested, if
    /// any: one round of the host loop, after input handling.
    pub fn step(&mut self)
        requires
            old(self).wf(),
        ensures
            final(self).wf(),
            exists|m2: Menu, r: Option<MenuOptions>|
                app_step_rel(*old(self), *final(self), m2, r),
    {
        let last = self.menus.len() - 1;
        let m = &mut self.menus[last];
        let r = m.is_done();
        let ghost m2 = self.menus@[last as int];
        proof {
            assert(self.menus@ == old(self).menus@.update(last as int, m2));
            assert(menu_poll_rel(old(self).menus@.last(), m2, r));
            if old(self).menus@.len() == 1 {
                assert(old(self).menus@.last() matches Menu::Main(_));
            }
            assert forall|i: int| 0 <= i < self.menus@.len() implies (
            #[trigger] self.menus@[i]).wf() by {}
            assert(self.menus@[0] matches Menu::Main(_));
        }
        match r {
            None => {
                proof {
                    assert(app_step_rel(*old(self), *self, m2, None::<MenuOptions>));
                }
            },
            Some(t) => {
                self.apply_transition(t);
                proof {
                    assert(app_step_rel(*old(self), *self, m2, Some(t)));
                }
            },
        }
    }
}

} // verus!

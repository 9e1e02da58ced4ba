use sokoban_editor::App;
use sokoban_editor::Key;
use sokoban_editor::Menu;
use sokoban_editor::MenuOptions;
use sokoban_editor::Pos;
use sokoban_editor::QuitMenu;

#[test]
fn create_pushes_a_fresh_editor() {
    let mut app = App::new();
    assert_eq!(app.depth(), 1);
    app.handle_key(Key::Char('c'));
    app.step();
    assert_eq!(app.depth(), 2);
    match app.active() {
        Menu::Edit(e) => {
            assert_eq!(e.buffer.width(), 20);
            assert_eq!(e.buffer.height(), 20);
            assert_eq!(*e.buffer.player_pos(), Pos(0, 0));
            assert_eq!(*e.buffer.goal(), Pos(19, 19));
            assert!(e.path().is_none());
            assert_eq!(e.current_tool, vec![0]);
            assert_eq!(e.cursor, Pos(0, 0));
        }
        _ => panic!("the create choice should push an editor"),
    }
    assert!(!app.should_exit);
}

#[test]
fn declining_the_quit_confirmation_goes_back() {
    let mut app = App::new();
    app.apply_transition(MenuOptions::Continue(Menu::Quit(QuitMenu::Undecided)));
    assert_eq!(app.depth(), 2);
    app.handle_key(Key::Char('n'));
    app.step();
    assert_eq!(app.depth(), 1);
    assert!(!app.should_exit);
    match app.active() {
        Menu::Main(_) => {}
        _ => panic!("going back should expose the main menu again"),
    }
}

#[test]
fn confirming_the_quit_confirmation_exits() {
    let mut app = App::new();
    app.apply_transition(MenuOptions::Continue(Menu::Quit(QuitMenu::Undecided)));
    app.handle_key(Key::Char('Y'));
    app.step();
    assert!(app.should_exit);
    assert_eq!(app.depth(), 2);
}

#[test]
fn quit_from_the_main_menu_exits() {
    let mut app = App::new();
    app.handle_key(Key::Char('q'));
    app.step();
    assert!(app.should_exit);
    assert_eq!(app.depth(), 1);
}

#[test]
fn back_to_first_leaves_exactly_one_screen() {
    let mut app = App::new();
    app.apply_transition(MenuOptions::Continue(Menu::Quit(QuitMenu::Undecided)));
    app.apply_transition(MenuOptions::Continue(Menu::Quit(QuitMenu::Undecided)));
    app.apply_transition(MenuOptions::Continue(Menu::Quit(QuitMenu::Undecided)));
    assert_eq!(app.depth(), 4);
    app.apply_transition(MenuOptions::BackToFirst);
    assert_eq!(app.depth(), 1);
}

#[test]
fn back_to_first_on_one_screen_is_a_no_op() {
    let mut app = App::new();
    app.apply_transition(MenuOptions::BackToFirst);
    assert_eq!(app.depth(), 1);
    assert!(!app.should_exit);
    match app.active() {
        Menu::Main(_) => {}
        _ => panic!("the root screen should be untouched"),
    }
}

#[test]
fn go_back_above_the_root_pops_one_screen() {
    let mut app = App::new();
    app.apply_transition(MenuOptions::Continue(Menu::Quit(QuitMenu::Undecided)));
    app.apply_transition(MenuOptions::Continue(Menu::Quit(QuitMenu::Undecided)));
    app.apply_transition(MenuOptions::GoBack);
    assert_eq!(app.depth(), 2);
}

#[test]
fn unimplemented_choices_push_a_dismissable_notice() {
    for key in ['p', 'e'] {
        let mut app = App::new();
        app.handle_key(Key::Char(key));
        app.step();
        assert_eq!(app.depth(), 2);
        match app.active() {
            Menu::Unavailable(u) => assert!(!u.dismissed),
            _ => panic!("play and edit should push the unavailable notice"),
        }
        app.handle_key(Key::Other);
        app.step();
        assert_eq!(app.depth(), 1);
        assert!(!app.should_exit);
    }
}

#[test]
fn the_selection_is_consumed_exactly_once() {
    let mut app = App::new();
    app.handle_key(Key::Char('C'));
    app.step();
    assert_eq!(app.depth(), 2);
    app.apply_transition(MenuOptions::BackToFirst);
    app.step();
    assert_eq!(app.depth(), 1);
    assert!(!app.should_exit);
}

#[test]
fn an_undecided_confirmation_yields_nothing() {
    let mut app = App::new();
    app.apply_transition(MenuOptions::Continue(Menu::Quit(QuitMenu::Undecided)));
    app.handle_key(Key::Char('x'));
    app.step();
    assert_eq!(app.depth(), 2);
    assert!(!app.should_exit);
}

#[test]
fn the_editor_never_requests_a_transition() {
    let mut app = App::new();
    app.handle_key(Key::Char('c'));
    app.step();
    for key in [Key::Char('d'), Key::Down, Key::Right, Key::Left, Key::Up, Key::Other] {
        app.handle_key(key);
        app.step();
        assert_eq!(app.depth(), 2);
        assert!(!app.should_exit);
    }
}

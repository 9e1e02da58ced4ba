use sokoban_editor::edit_menu::EditMenu;
use sokoban_editor::menu::Key;
use sokoban_editor::tools::MenuLayer;
use sokoban_editor::tools::MenuValue;
use sokoban_editor::tools::Tool;
use sokoban_editor::tools::ascend;
use sokoban_editor::tools::descend;
use sokoban_editor::tools::sibling_arity;
use sokoban_editor::tools::sibling_next;
use sokoban_editor::tools::sibling_prev;
use sokoban_editor::tools::start_layer;
use sokoban_editor::Tile;

fn names_of(layer: &MenuLayer) -> Vec<String> {
    layer.sub_menu.iter().map(|v| v.name().to_string()).collect()
}

#[test]
fn start_layer_shape() {
    let root = start_layer();
    assert_eq!(names_of(&root), vec!["Tiles", "Area Select", "Save"]);
    match root.get_value(&vec![0]) {
        Some(MenuValue::Nested(g)) => assert_eq!(names_of(g), vec!["Empty", "Wall", "Box"]),
        _ => panic!("first entry should be the tile group"),
    }
    match root.get_value(&vec![1, 2]) {
        Some(v) => assert_eq!(v.name(), "Fill"),
        None => panic!("area tools should resolve"),
    }
}

#[test]
fn resolve_out_of_bounds_is_none() {
    let root = start_layer();
    assert!(root.get_value(&vec![3]).is_none());
    assert!(root.get_value(&vec![0, 5]).is_none());
    assert!(root.get_value(&Vec::new()).is_none());
}

#[test]
fn resolve_tolerates_indices_past_a_terminal() {
    let root = start_layer();
    match root.get_value(&vec![2, 7, 9]) {
        Some(MenuValue::Terminal(Tool::Save)) => {}
        _ => panic!("excess indices past a terminal should return the terminal"),
    }
}

#[test]
fn menu_value_get_value_skips_the_first_index() {
    let root_value = MenuValue::Nested(start_layer());
    match root_value.get_value(&vec![9]) {
        Some(MenuValue::Nested(g)) => assert_eq!(g.sub_menu.len(), 3),
        _ => panic!("a single index should return the entry itself"),
    }
    match root_value.get_value(&vec![0, 1]) {
        Some(MenuValue::Nested(g)) => assert_eq!(names_of(g), vec!["Move", "Delete", "Fill"]),
        _ => panic!("the second index should select within the root"),
    }
    match root_value.get_value(&Vec::new()) {
        Some(MenuValue::Nested(_)) => {}
        _ => panic!("an empty position should return the entry itself"),
    }
}

#[test]
fn sibling_moves_cycle_and_invert() {
    let root = start_layer();
    let mut path = vec![0usize];
    assert_eq!(sibling_arity(&root, &path), 3);
    sibling_next(&root, &mut path);
    assert_eq!(path, vec![1]);
    sibling_prev(&root, &mut path);
    assert_eq!(path, vec![0]);
    sibling_prev(&root, &mut path);
    assert_eq!(path, vec![2]);
    sibling_next(&root, &mut path);
    assert_eq!(path, vec![0]);
}

#[test]
fn sibling_moves_on_a_single_child_group_are_no_ops() {
    let lone = MenuLayer {
        name: "Lone",
        sub_menu: vec![MenuValue::Terminal(Tool::Tile(Tile::Wall))],
    };
    let mut path = vec![0usize];
    sibling_next(&lone, &mut path);
    assert_eq!(path, vec![0]);
    sibling_prev(&lone, &mut path);
    assert_eq!(path, vec![0]);
}

#[test]
fn descend_then_ascend_returns_to_the_original_path() {
    let deep = MenuLayer {
        name: "Top",
        sub_menu: vec![MenuValue::Nested(MenuLayer {
            name: "Middle",
            sub_menu: vec![
                MenuValue::Nested(MenuLayer {
                    name: "Inner",
                    sub_menu: vec![MenuValue::Terminal(Tool::Save)],
                }),
                MenuValue::Terminal(Tool::AreaTool(sokoban_editor::AreaTool::Move)),
            ],
        })],
    };
    let mut path = vec![0usize, 0];
    descend(&deep, &mut path);
    assert_eq!(path, vec![0, 0, 0]);
    ascend(&deep, &mut path);
    assert_eq!(path, vec![0, 0]);
}

#[test]
fn descend_on_a_terminal_is_a_no_op() {
    let root = start_layer();
    let mut path = vec![2usize];
    descend(&root, &mut path);
    assert_eq!(path, vec![2]);
}

#[test]
fn ascend_never_shrinks_the_path_below_two() {
    let root = start_layer();
    let mut path = vec![0usize, 1];
    ascend(&root, &mut path);
    assert_eq!(path, vec![0, 1]);
    let mut short = vec![1usize];
    ascend(&root, &mut short);
    assert_eq!(short, vec![1]);
}

#[test]
fn five_left_presses_stop_at_path_length_two() {
    let mut editor = EditMenu::default();
    assert_eq!(editor.current_tool, vec![0]);
    editor.handle_input(Key::Right);
    assert_eq!(editor.current_tool, vec![0, 0]);
    for _ in 0..5 {
        editor.handle_input(Key::Left);
    }
    assert_eq!(editor.current_tool, vec![0, 0]);
}

#[test]
fn editor_cursor_saturates_and_clamps() {
    let mut editor = EditMenu::default();
    editor.handle_input(Key::Char('w'));
    editor.handle_input(Key::Char('a'));
    assert_eq!(editor.cursor, sokoban_editor::Pos(0, 0));
    for _ in 0..25 {
        editor.handle_input(Key::Char('d'));
        editor.handle_input(Key::Char('s'));
    }
    assert_eq!(editor.cursor, sokoban_editor::Pos(19, 19));
    editor.handle_input(Key::Char('W'));
    editor.handle_input(Key::Char('A'));
    assert_eq!(editor.cursor, sokoban_editor::Pos(18, 18));
}

#[test]
fn editor_arrows_move_only_the_selection() {
    let mut editor = EditMenu::default();
    editor.handle_input(Key::Down);
    assert_eq!(editor.current_tool, vec![1]);
    editor.handle_input(Key::Up);
    assert_eq!(editor.current_tool, vec![0]);
    editor.handle_input(Key::Right);
    editor.handle_input(Key::Down);
    assert_eq!(editor.current_tool, vec![0, 1]);
    assert_eq!(editor.cursor, sokoban_editor::Pos(0, 0));
}

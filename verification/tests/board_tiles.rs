use sokoban_editor::board::Board;
use sokoban_editor::board::Pos;
use sokoban_editor::Tile;
use sokoban_editor::Tool;
use sokoban_editor::AreaTool;
use sokoban_editor::MenuValue;

#[test]
fn a_new_board_is_empty_with_corner_goal() {
    let b = Board::new(4, 3);
    assert_eq!(b.width(), 4);
    assert_eq!(b.height(), 3);
    assert_eq!(*b.player_pos(), Pos(0, 0));
    assert_eq!(*b.goal(), Pos(3, 2));
    for y in 0..3 {
        for x in 0..4 {
            assert_eq!(b.get_tile(Pos(x, y)), Some(Tile::Empty));
        }
    }
}

#[test]
fn tiles_are_stored_row_major() {
    let mut b = Board::new(3, 2);
    b.set_tile(Pos(1, 1), Tile::Box);
    assert_eq!(b.get_tile(Pos(1, 1)), Some(Tile::Box));
    assert_eq!(b.get_tile(Pos(0, 1)), Some(Tile::Empty));
    // The flat index tolerates positions that wrap across a row.
    assert_eq!(b.get_tile(Pos(4, 0)), Some(Tile::Box));
}

#[test]
fn out_of_store_positions_are_rejected() {
    let mut b = Board::new(3, 2);
    assert_eq!(b.get_tile(Pos(0, 2)), None);
    assert_eq!(b.get_tile(Pos(usize::MAX, usize::MAX)), None);
    b.set_tile(Pos(0, 2), Tile::Wall);
    for y in 0..2 {
        for x in 0..3 {
            assert_eq!(b.get_tile(Pos(x, y)), Some(Tile::Empty));
        }
    }
}

#[test]
fn player_and_goal_can_be_moved() {
    let mut b = Board::new(3, 3);
    b.set_player_pos(Pos(1, 2));
    assert_eq!(*b.player_pos(), Pos(1, 2));
    *b.player_pos_mut() = Pos(2, 2);
    assert_eq!(*b.player_pos(), Pos(2, 2));
    b.set_goal(Pos(0, 0));
    assert_eq!(*b.goal(), Pos(0, 0));
    *b.goal_mut() = Pos(1, 1);
    assert_eq!(*b.goal(), Pos(1, 1));
}

#[test]
fn tile_defaults_symbols_and_descriptors() {
    assert_eq!(Tile::default(), Tile::Empty);
    assert_eq!(Tile::Wall.symbol(), "#");
    assert_eq!(Tile::Box.symbol(), "*");
    assert_eq!(Tile::Empty.symbol(), " ");
    let wall = Tile::Wall.descriptor();
    assert!(wall.solid && !wall.pushable);
    let boxd = Tile::Box.descriptor();
    assert!(boxd.solid && boxd.pushable);
    let empty = Tile::Empty.descriptor();
    assert!(!empty.solid && empty.pushable);
}

#[test]
fn tool_and_entry_names() {
    assert_eq!(Tool::Tile(Tile::Empty).name(), "Empty");
    assert_eq!(Tool::Tile(Tile::Wall).name(), "Wall");
    assert_eq!(Tool::Tile(Tile::Box).name(), "Box");
    assert_eq!(Tool::AreaTool(AreaTool::Move).name(), "Move");
    assert_eq!(Tool::AreaTool(AreaTool::Delete).name(), "Delete");
    assert_eq!(Tool::AreaTool(AreaTool::Fill).name(), "Fill");
    assert_eq!(Tool::Save.name(), "Save");
    assert_eq!(MenuValue::Terminal(Tool::Save).name(), "Save");
}

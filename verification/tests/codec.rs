use sokoban_editor::board::Board;
use sokoban_editor::board::Pos;
use sokoban_editor::codec::decode_board;
use sokoban_editor::codec::encode_board;
use sokoban_editor::edit_menu::EditMenu;
use sokoban_editor::Tile;

fn sample_board() -> Board {
    let mut b = Board::new(3, 2);
    b.set_tile(Pos(0, 0), Tile::Wall);
    b.set_tile(Pos(1, 0), Tile::Empty);
    b.set_tile(Pos(2, 0), Tile::Box);
    b.set_tile(Pos(0, 1), Tile::Empty);
    b.set_tile(Pos(1, 1), Tile::Empty);
    b.set_tile(Pos(2, 1), Tile::Wall);
    b.set_player_pos(Pos(0, 0));
    b.set_goal(Pos(2, 1));
    b
}

#[test]
fn save_load_round_trip() {
    let b = sample_board();
    let bytes = encode_board(&b);
    let loaded = decode_board(&bytes).expect("an encoded board must decode");
    assert_eq!(loaded.width(), 3);
    assert_eq!(loaded.height(), 2);
    for y in 0..2 {
        for x in 0..3 {
            assert_eq!(loaded.get_tile(Pos(x, y)), b.get_tile(Pos(x, y)));
        }
    }
    assert_eq!(*loaded.player_pos(), Pos(0, 0));
    assert_eq!(*loaded.goal(), Pos(2, 1));
}

#[test]
fn encoding_is_the_documented_text() {
    let b = Board::new(3, 2);
    let bytes = encode_board(&b);
    assert_eq!(bytes, b"3 2 0 0 2 1 000000".to_vec());
    let sample = encode_board(&sample_board());
    assert_eq!(sample, b"3 2 0 0 2 1 102001".to_vec());
}

#[test]
fn decode_rejects_malformed_input() {
    assert!(decode_board(&Vec::new()).is_none());
    assert!(decode_board(&b"abc".to_vec()).is_none());
    assert!(decode_board(&b"3 2 0 0 2 1 ".to_vec()).is_none());
    assert!(decode_board(&b"3 2 0 0 2 1 00000".to_vec()).is_none());
    assert!(decode_board(&b"3 2 0 0 2 1 0000000".to_vec()).is_none());
    assert!(decode_board(&b"3 2 0 0 2 1 000700".to_vec()).is_none());
    assert!(decode_board(&b"0 2 0 0 2 1 ".to_vec()).is_none());
    assert!(decode_board(&b"3 0 0 0 2 1 ".to_vec()).is_none());
    assert!(decode_board(&b"99999999999999999999 2 0 0 2 1 000000".to_vec()).is_none());
}

#[test]
fn decoded_boards_are_well_formed() {
    let bytes = b"2 2 9 9 9 9 0000".to_vec();
    let b = decode_board(&bytes).expect("a consistent buffer decodes");
    assert_eq!(b.width(), 2);
    assert_eq!(b.height(), 2);
    assert_eq!(*b.player_pos(), Pos(9, 9));
}

#[test]
fn editor_saves_and_reloads_its_board() {
    let b = sample_board();
    let bytes = encode_board(&b);
    let editor = EditMenu::from_saved("level_one".to_string(), &bytes)
        .expect("a saved board must load");
    assert_eq!(editor.path(), Some(&"level_one".to_string()));
    assert_eq!(editor.buffer.width(), 3);
    assert_eq!(editor.buffer.get_tile(Pos(2, 0)), Some(Tile::Box));
    let saved = editor.save_payload().expect("a backed editor saves");
    assert_eq!(saved, bytes);
}

#[test]
fn unsaved_editor_has_no_save_payload() {
    let editor = EditMenu::default();
    assert!(editor.path().is_none());
    assert!(editor.save_payload().is_none());
}

#[test]
fn editor_refuses_a_corrupt_save() {
    assert!(EditMenu::from_saved("x".to_string(), &b"not a board".to_vec()).is_none());
}

//! The level editor: a board being edited, a cursor bounded to the board, an
//! optional backing-file name, and a selection path into the tool tree.
//! Letter keys move the cursor, clamped to the board; the arrow keys move
//! the tool selection within the tree. The editor itself never requests a
//! stack transition.

use vstd::prelude::*;

use crate::board::Board;
use crate::board::Pos;
use crate::codec::decode_board;
use crate::codec::encode_board;
use crate::codec::spec_encode;
use crate::menu::Key;
use crate::menu::MenuOptions;
use crate::tiles::Tile;
use crate::tools::MenuLayer;
use crate::tools::ascend;
use crate::tools::ascend_spec;
use crate::tools::descend;
use crate::tools::descend_spec;
use crate::tools::layer_wf;
use crate::tools::path_valid;
use crate::tools::sibling_next;
use crate::tools::sibling_next_spec;
use crate::tools::sibling_prev;
use crate::tools::sibling_prev_spec;
use crate::tools::start_layer;

verus! {

/// The editor screen.
pub struct EditMenu {
    pub cursor: Pos,
    pub buffer: Board,
    pub path: Option<String>,
    pub current_tool: Vec<usize>,
    pub tools: MenuLayer,
}

/// Where the cursor moves under one character key: w/a/s/d step it one cell
/// up, left, down or right, saturating at zero and clamped to the last
/// column and row; other characters leave it alone.
pub open spec fn cursor_step(cur: Pos, w: int, h: int, c: char) -> Pos {
    if c == 'w' || c == 'W' {
        Pos(cur.0, if cur.1 == 0 { 0usize } else { (cur.1 - 1) as usize })
    } else if c == 'a' || c == 'A' {
        Pos(if cur.0 == 0 { 0usize } else { (cur.0 - 1) as usize }, cur.1)
    } else if c == 'd' || c == 'D' {
        Pos(if cur.0 + 1 < w { (cur.0 + 1) as usize } else { (w - 1) as usize }, cur.1)
    } else if c == 's' || c == 'S' {
        Pos(cur.0, if cur.1 + 1 < h { (cur.1 + 1) as usize } else { (h - 1) as usize })
    } else {
        cur
    }
}

/// How the editor's state moves under one key press: character keys move
/// only the cursor, arrow keys move only the tool selection, anything else
/// changes nothing; the board, the file name and the tool tree never change.
pub open spec fn edit_step_rel(o: EditMenu, n: EditMenu, k: Key) -> bool {
    &&& n.buffer == o.buffer
    &&& n.path == o.path
    &&& n.tools == o.tools
    &&& match k {
        Key::Char(c) => n.current_tool@ == o.current_tool@ && n.cursor == cursor_step(
            o.cursor,
            o.buffer.width as int,
            o.buffer.spec_height(),
            c,
        ),
        Key::Down => n.cursor == o.cursor && n.current_tool@ == sibling_next_spec(
            o.tools,
            o.current_tool@,
        ),
        Key::Up => n.cursor == o.cursor && n.current_tool@ == sibling_prev_spec(
            o.tools,
            o.current_tool@,
        ),
        Key::Right => n.cursor == o.cursor && n.current_tool@ == descend_spec(
            o.tools,
            o.current_tool@,
        ),
        Key::Left => n.cursor == o.cursor && n.current_tool@ == ascend_spec(o.current_tool@),
        Key::Other => n.cursor == o.cursor && n.current_tool@ == o.current_tool@,
    }
}

impl EditMenu {
    /// A well-formed editor: the board is well formed, the cursor lies on
    /// it, the tool tree is well formed and the selection path is valid.
    pub open spec fn wf(self) -> bool {
        &&& self.buffer.wf()
        &&& (self.cursor.0 as int) < self.buffer.width as int
        &&& (self.cursor.1 as int) < self.buffer.spec_height()
        &&& layer_wf(self.tools)
        &&& path_valid(self.tools, self.current_tool@)
    }

    /// A fresh editor: an unsaved empty twenty-by-twenty board, the cursor
    /// at the origin and the selection at the tool tree's first entry.
    pub open spec fn is_fresh(self) -> bool {
        &&& self.wf()
        &&& self.cursor == (Pos(0, 0))
        &&& self.buffer.width == 20
        &&& self.buffer.tiles@ == Seq::new(400, |i: int| Tile::Empty)
        &&& self.buffer.player_pos == (Pos(0, 0))
        &&& self.buffer.goal == (Pos(19, 19))
        &&& self.path is None
        &&& self.current_tool@ == seq![0usize]
    }

    /// The name of the backing file, when the board has one.
    pub fn path(&self) -> (r: Option<&String>)
        ensures
            match r {
                Some(p) => self.path == Some(*p),
                None => self.path is None,
            },
    {
        self.path.as_ref()
    }

    /// Rebuild an editor from a saved board. Succeeds on (at least) every
    /// buffer that encodes a well-formed board, and then carries an
    /// equivalent board under the given file name.
    pub fn from_saved(path: String, content: &Vec<u8>) -> (r: Option<EditMenu>)
        ensures
            r matches Some(e) ==> {
                &&& e.wf()
                &&& e.path == Some(path)
                &&& e.cursor == (Pos(0, 0))
                &&& e.current_tool@ == seq![0usize]
            },
            forall|b: Board|
                b.wf() && content@ == #[trigger] spec_encode(b) ==> (r matches Some(e)
                    && b.eqv(e.buffer)),
    {
        match decode_board(content) {
            Some(board) => {
                proof {
                    crate::board::lemma_board_size(board);
                }
                let tools = start_layer();
                let e = EditMenu {
                    cursor: Pos(0, 0),
                    buffer: board,
                    path: Some(path),
                    current_tool: vec![0],
                    tools,
                };
                proof {
                    assert(e.current_tool@ == seq![0usize]);
                    assert(path_valid(e.tools, e.current_tool@));
                }
                Some(e)
            },
            None => None,
        }
    }

    /// The bytes to write to the backing file, when there is one: the
    /// current board, encoded. An unsaved board yields nothing.
    pub fn save_payload(&self) -> (r: Option<Vec<u8>>)
        requires
            self.wf(),
        ensures
            match r {
                Some(v) => self.path is Some && v@ == spec_encode(self.buffer),
                None => self.path is None,
            },
    {
        match &self.path {
            Some(_) => Some(encode_board(&self.buffer)),
            None => None,
        }
    }

    /// Consume one key press.
    pub fn handle_input(&mut self, input: Key)
        requires
            old(self).wf(),
        ensures
            final(self).wf(),
            edit_step_rel(*old(self), *final(self), input),
    {
        match input {
            Key::Char(x) => {
                if x == 'w' || x == 'W' {
                    self.cursor.1 = if self.cursor.1 > 0 {
                        self.cursor.1 - 1
                    } else {
                        0
                    };
                } else if x == 'a' || x == 'A' {
                    self.cursor.0 = if self.cursor.0 > 0 {
                        self.cursor.0 - 1
                    } else {
                        0
                    };
                } else if x == 'd' || x == 'D' {
                    let w = self.buffer.width();
                    self.cursor.0 = if self.cursor.0 + 1 < w {
                        self.cursor.0 + 1
                    } else {
                        w - 1
                    };
                } else if x == 's' || x == 'S' {
                    let h = self.buffer.height();
                    self.cursor.1 = if self.cursor.1 + 1 < h {
                        self.cursor.1 + 1
                    } else {
                        h - 1
                    };
                }
            },
            Key::Down => {
                sibling_next(&self.tools, &mut self.current_tool);
            },
            Key::Up => {
                sibling_prev(&self.tools, &mut self.current_tool);
            },
            Key::Right => {
                descend(&self.tools, &mut self.current_tool);
            },
            Key::Left => {
                ascend(&self.tools, &mut self.current_tool);
            },
            Key::Other => {},
        }
    }

    /// The editor never requests a transition.
    pub fn is_done(&mut self) -> (r: Option<MenuOptions>)
        ensures
            *final(self) == *old(self),
            r is None,
    {
        None
    }
}

impl Default for EditMenu {
    /// A fresh editor over an unsaved default board.
    fn default() -> (r: Self)
        ensures
            r.is_fresh(),
    {
        let tools = start_layer();
        let e = EditMenu {
            cursor: Pos(0, 0),
            buffer: Board::new(20, 20),
            path: None,
            current_tool: vec![0],
            tools,
        };
        proof {
            assert(e.current_tool@ == seq![0usize]);
            assert(path_valid(e.tools, e.current_tool@));
            assert(e.buffer.tiles@ == Seq::new(400, |i: int| Tile::Empty));
        }
        e
    }
}

} // verus!

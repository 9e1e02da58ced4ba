//! A small terminal level-editor core: a tile board, a hierarchical tool
//! menu navigated by a path of indices, and a stack of screens driven by
//! key events. Rendering and input decoding live outside the library.

pub mod app;
pub mod board;
pub mod codec;
pub mod edit_menu;
pub mod main_menu;
pub mod menu;
pub mod quit_menu;
pub mod tiles;
pub mod tools;

pub use app::App;
pub use board::Board;
pub use board::Pos;
pub use edit_menu::EditMenu;
pub use main_menu::MainMenu;
pub use menu::Key;
pub use menu::Menu;
pub use menu::MenuOptions;
pub use quit_menu::QuitMenu;
pub use tiles::Tile;
pub use tiles::TileDescriptor;
pub use tools::AreaTool;
pub use tools::MenuLayer;
pub use tools::MenuValue;
pub use tools::Tool;
